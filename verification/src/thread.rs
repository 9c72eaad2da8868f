//! Virtual machine threads: the workers that run processes.
//!
//! A thread as it stands here is the state of one worker: its queue of
//! runnable processes and its flags. The worker keeps it behind a lock and
//! waits on a condition for as long as [`Thread::wait_for_work`] says so;
//! whoever calls [`Thread::schedule`] or [`Thread::stop`] wakes it.

use vstd::prelude::*;

verus! {

/// The state of a worker. `T` is what stands for a process in the queue,
/// `H` is the handle by which the thread of the worker is joined.
pub struct Thread<T, H> {
    /// The processes that wait to be run, the one scheduled last at the
    /// end.
    pub process_queue: Vec<T>,
    /// Set when there is something for the worker to look at.
    pub wake_up: bool,
    /// Set when the worker is to stop.
    pub should_stop: bool,
    pub join_handle: Option<H>,
    /// Set for a worker that processes are pinned to: nothing is to be
    /// taken away from its queue.
    pub isolated: bool,
}

impl<T, H> Thread<T, H> {
    /// A worker with an empty queue that is neither woken, stopped nor
    /// isolated.
    pub fn new(handle: Option<H>) -> (thread: Thread<T, H>)
        ensures
            thread.process_queue@ == Seq::<T>::empty(),
            !thread.wake_up,
            !thread.should_stop,
            thread.join_handle == handle,
            !thread.isolated,
    {
        Thread {
            process_queue: Vec::new(),
            wake_up: false,
            should_stop: false,
            join_handle: handle,
            isolated: false,
        }
    }

    /// As [`Thread::new`], but isolated.
    pub fn isolated(handle: Option<H>) -> (thread: Thread<T, H>)
        ensures
            thread.process_queue@ == Seq::<T>::empty(),
            !thread.wake_up,
            !thread.should_stop,
            thread.join_handle == handle,
            thread.isolated,
    {
        let mut thread = Thread::new(handle);
        thread.isolated = true;
        thread
    }

    /// Asks the worker to stop, and wakes it.
    pub fn stop(&mut self)
        ensures
            *final(self) == (Thread { should_stop: true, wake_up: true, ..*old(self) }),
    {
        self.should_stop = true;
        self.wake_up = true;
    }

    /// Hands out the join handle; the thread keeps none.
    pub fn take_join_handle(&mut self) -> (handle: Option<H>)
        ensures
            handle == old(self).join_handle,
            *final(self) == (Thread { join_handle: None, ..*old(self) }),
    {
        self.join_handle.take()
    }

    /// Whether the worker was asked to stop.
    pub fn should_stop(&self) -> (answer: bool)
        ensures
            answer == self.should_stop,
    {
        self.should_stop
    }

    /// Whether the worker is isolated.
    pub fn is_isolated(&self) -> (answer: bool)
        ensures
            answer == self.isolated,
    {
        self.isolated
    }

    /// The number of processes that wait to be run.
    pub fn process_queue_size(&self) -> (size: usize)
        ensures
            size == self.process_queue@.len(),
    {
        self.process_queue.len()
    }

    /// Puts a process at the end of the queue, and wakes the worker.
    pub fn schedule(&mut self, task: T)
        ensures
            *final(self) == (Thread {
                process_queue: final(self).process_queue,
                wake_up: true,
                ..*old(self)
            }),
            final(self).process_queue@ == old(self).process_queue@.push(task),
    {
        self.process_queue.push(task);
        self.wake_up = true;
    }

    /// Whether the worker has to wait: it was not asked to stop, its queue
    /// is empty, and nobody has woken it.
    pub fn wait_for_work(&self) -> (wait: bool)
        ensures
            wait == (!self.should_stop && self.process_queue@.len() == 0 && !self.wake_up),
    {
        if self.should_stop() {
            return false;
        }
        let empty = self.process_queue_size() == 0;
        empty && !self.wake_up
    }

    /// Takes the process that was scheduled last off the queue. The worker
    /// counts as not woken afterwards.
    pub fn pop_process(&mut self) -> (task: T)
        requires
            old(self).process_queue@.len() > 0,
        ensures
            task == old(self).process_queue@.last(),
            final(self).process_queue@ == old(self).process_queue@.drop_last(),
            *final(self) == (Thread {
                process_queue: final(self).process_queue,
                wake_up: false,
                ..*old(self)
            }),
    {
        self.wake_up = false;
        self.process_queue.pop().unwrap()
    }
}

} // verus!
