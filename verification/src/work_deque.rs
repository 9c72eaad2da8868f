//! The work list of the root scan: the worker's end of a work-stealing
//! deque.

use crossbeam::sync::chase_lev::{deque, Worker};
use vstd::prelude::*;

verus! {

/// `chase_lev::Worker`: the end of a deque that its owner pushes to and
/// pops from. Nothing is known of what is inside it.
#[verifier::external_type_specification]
#[verifier::external_body]
#[verifier::reject_recursive_types(T)]
pub struct ExWorker<T>(Worker<T>);

/// The items in the deque of a worker, the one that was pushed last at the
/// end.
pub uninterp spec fn worker_items(worker: Worker<usize>) -> Seq<usize>;

/// `chase_lev::deque`: a new deque without items. Only the worker's end is
/// kept; the stealing end is dropped at once, so nothing but the worker
/// ever takes an item out.
#[verifier::external_body]
pub(crate) fn new_worker() -> (worker: Worker<usize>)
    ensures
        worker_items(worker) == Seq::<usize>::empty(),
{
    let (worker, _) = deque();
    worker
}

/// `Worker::push`: puts the item at the worker's end of the deque.
#[verifier::external_body]
pub(crate) fn worker_push(worker: &mut Worker<usize>, item: usize)
    ensures
        worker_items(*final(worker)) == worker_items(*old(worker)).push(item),
{
    worker.push(item)
}

/// `Worker::try_pop`: takes the item that was pushed last off the deque,
/// or returns nothing where the deque is empty.
#[verifier::external_body]
pub(crate) fn worker_try_pop(worker: &mut Worker<usize>) -> (item: Option<usize>)
    ensures
        worker_items(*old(worker)).len() == 0 ==> item is None && worker_items(*final(worker))
            == worker_items(*old(worker)),
        worker_items(*old(worker)).len() > 0 ==> item == Some(worker_items(*old(worker)).last())
            && worker_items(*final(worker)) == worker_items(*old(worker)).drop_last(),
{
    worker.try_pop()
}

} // verus!
