//! Per-worker virtual time. The scheduler refreshes it from the monotonic
//! clock; suspension primitives measure their deadlines against it.

use crate::sleep_async_node::SleepAsyncNode;
use vstd::prelude::*;

verus! {

pub struct Runtime {
    curr_time_usec: u64,
}

impl Runtime {
    pub closed spec fn time_spec(&self) -> u64 {
        self.curr_time_usec
    }

    pub fn new() -> (rt: Runtime)
        ensures
            rt.time_spec() == 0,
    {
        Runtime { curr_time_usec: 0 }
    }

    pub fn get_time_usec(&self) -> (r: u64)
        ensures
            r == self.time_spec(),
    {
        self.curr_time_usec
    }

    /// Advances virtual time. Time never moves backward here: the clock
    /// that feeds this is monotonic, and a regression would mean a broken
    /// core invariant, so a smaller value is ruled out up front.
    pub fn set_time_usec(&mut self, updated_time_usec: u64)
        requires
            updated_time_usec >= old(self).time_spec(),
        ensures
            final(self).time_spec() == updated_time_usec,
    {
        self.curr_time_usec = updated_time_usec;
    }

    /// A suspension value that sleeps for `dur_usec` past the current
    /// virtual time, saturating at the largest representable deadline.
    pub fn sleep(&self, dur_usec: u64) -> (n: SleepAsyncNode)
        ensures
            n.deadline_spec() == if self.time_spec() + dur_usec <= u64::MAX {
                (self.time_spec() + dur_usec) as u64
            } else {
                u64::MAX
            },
    {
        SleepAsyncNode::new(self.curr_time_usec.saturating_add(dur_usec))
    }
}

} // verus!
