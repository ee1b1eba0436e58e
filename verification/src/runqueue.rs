//! FIFO queue of ready task ids.

use std::collections::VecDeque;
use vstd::prelude::*;

verus! {

/// Tasks that are ready to be polled, in first-in-first-out order.
/// The queue stores task ids; the task table owns the tasks themselves.
pub struct RunQueue {
    task_vec: VecDeque<u64>,
}

impl View for RunQueue {
    type V = Seq<u64>;

    closed spec fn view(&self) -> Seq<u64> {
        self.task_vec@
    }
}

impl RunQueue {
    pub fn new() -> (q: RunQueue)
        ensures
            q@ == Seq::<u64>::empty(),
    {
        RunQueue { task_vec: VecDeque::new() }
    }

    /// How many tasks are waiting.
    pub fn len(&self) -> (r: usize)
        ensures
            r == self@.len(),
    {
        self.task_vec.len()
    }

    /// Removes and returns the oldest ready task id, if any.
    pub fn take_one_task(&mut self) -> (r: Option<u64>)
        ensures
            old(self)@.len() == 0 ==> r is None && final(self)@ == old(self)@,
            old(self)@.len() > 0 ==> r == Some(old(self)@[0])
                && final(self)@ == old(self)@.drop_first(),
    {
        self.task_vec.pop_front()
    }

    /// Appends a task id at the back of the queue.
    pub fn push_one_task(&mut self, st: u64)
        ensures
            final(self)@ == old(self)@.push(st),
    {
        self.task_vec.push_back(st);
    }
}

} // verus!
