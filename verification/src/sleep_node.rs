//! A degenerate suspension value that completes on its first poll. It keeps
//! the delay it was created with but never actually suspends.

use crate::pollable::{Advance, Pollable};
use crate::sched_context::SchedContext;
use vstd::prelude::*;

verus! {

pub struct SleepRet {
    delay_usec: u64,
}

impl SleepRet {
    pub closed spec fn delay_spec(&self) -> u64 {
        self.delay_usec
    }

    pub fn new(delay_usec: u64) -> (n: SleepRet)
        ensures
            n.delay_spec() == delay_usec,
    {
        SleepRet { delay_usec }
    }
}

impl Pollable for SleepRet {
    fn advance(&mut self, ctx: &mut SchedContext) -> (r: Advance)
        ensures
            *final(self) == *old(self),
            *final(ctx) == *old(ctx),
            r is Ready,
    {
        Advance::Ready
    }
}

} // verus!
