//! A first-in, first-out queue.

use std::collections::VecDeque;
use vstd::prelude::*;

verus! {

/// A queue that hands its values out in the order in which they were put
/// in.
pub struct Queue<T> {
    values: VecDeque<T>,
}

impl<T> View for Queue<T> {
    type V = Seq<T>;

    /// The values in the queue, the one that leaves next first.
    closed spec fn view(&self) -> Seq<T> {
        self.values@
    }
}

impl<T> Queue<T> {
    /// An empty queue.
    pub fn new() -> (queue: Queue<T>)
        ensures
            queue@ == Seq::<T>::empty(),
    {
        Queue { values: VecDeque::new() }
    }

    /// The number of values in the queue.
    pub fn len(&self) -> (count: usize)
        ensures
            count == self@.len(),
    {
        self.values.len()
    }

    /// Puts `value` at the end of the queue.
    pub fn push(&mut self, value: T)
        ensures
            final(self)@ == old(self)@.push(value),
    {
        self.values.push_back(value);
    }

    /// Takes the first value off the queue; returns nothing, at once, where
    /// the queue is empty.
    pub fn pop_nonblock(&mut self) -> (value: Option<T>)
        ensures
            old(self)@.len() == 0 ==> value is None && final(self)@ == old(self)@,
            old(self)@.len() > 0 ==> value == Some(old(self)@[0]) && final(self)@ == old(self)@.skip(1),
    {
        let value = self.values.pop_front();
        assert(old(self)@.len() > 0 ==> old(self)@.subrange(1, old(self)@.len() as int) =~= old(self)@.skip(1));
        value
    }
}

/// What a queue holds after the values of `sent` were pushed one by one.
pub open spec fn after_pushes<T>(queue: Seq<T>, sent: Seq<T>) -> Seq<T>
    decreases sent.len(),
{
    if sent.len() == 0 {
        queue
    } else {
        after_pushes(queue, sent.drop_last()).push(sent.last())
    }
}

/// Values leave a queue in the order in which they were pushed: after any
/// number of pushes the queue holds what it held before, followed by the
/// pushed values in the order of the pushes.
pub proof fn lemma_queue_keeps_order<T>(queue: Seq<T>, sent: Seq<T>)
    ensures
        after_pushes(queue, sent) == queue + sent,
    decreases sent.len(),
{
    if sent.len() == 0 {
        assert(queue + sent =~= queue);
    } else {
        lemma_queue_keeps_order(queue, sent.drop_last());
        assert((queue + sent.drop_last()).push(sent.last()) =~= queue + sent);
    }
}

} // verus!
