//! Timed suspension: a computation that stays pending until virtual time
//! reaches its deadline.

use crate::pollable::{Advance, Pollable};
use crate::sched_context::SchedContext;
use vstd::prelude::*;

verus! {

/// Suspends the surrounding task until virtual time reaches `delayed_to`.
/// While pending it records its deadline in the context, so the scheduler
/// parks the task in the timer wheel; the wheel's harvest makes the task
/// ready again once time has caught up.
pub struct SleepAsyncNode {
    delayed_to: u64,
}

impl SleepAsyncNode {
    pub closed spec fn deadline_spec(&self) -> u64 {
        self.delayed_to
    }

    pub fn new(delayed_to: u64) -> (n: SleepAsyncNode)
        ensures
            n.deadline_spec() == delayed_to,
    {
        SleepAsyncNode { delayed_to }
    }
}

impl Pollable for SleepAsyncNode {
    fn advance(&mut self, ctx: &mut SchedContext) -> (r: Advance)
        ensures
            *final(self) == *old(self),
            old(ctx).time_spec() < old(self).deadline_spec() ==> r is Pending
                && final(ctx).sleep_request_spec() == Some(old(self).deadline_spec()),
            old(ctx).time_spec() >= old(self).deadline_spec() ==> r is Ready
                && final(ctx).sleep_request_spec() == old(ctx).sleep_request_spec(),
            final(ctx).sched_id_spec() == old(ctx).sched_id_spec(),
            final(ctx).time_spec() == old(ctx).time_spec(),
            final(ctx).curr_task_spec() == old(ctx).curr_task_spec(),
    {
        let curr_time_usec = ctx.get_time_usec();
        if curr_time_usec < self.delayed_to {
            match ctx.get_curr_task() {
                None => {
                    // The trait contract names the task being polled, so a
                    // poll outside a scheduler cannot reach this arm.
                    vstd::pervasive::unreached()
                }
                Some(_) => {
                    ctx.request_sleep(self.delayed_to);
                }
            }
            Advance::Pending
        } else {
            Advance::Ready
        }
    }
}

} // verus!
