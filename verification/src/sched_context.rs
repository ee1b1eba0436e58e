//! The ambient state a task sees while it is being polled: which scheduler
//! it runs under, the current virtual time, which task is being polled, and
//! the suspension deadline the task asked for during this poll, if any.

use vstd::prelude::*;

verus! {

pub struct SchedContext {
    sched_id: usize,
    curr_time_usec: u64,
    curr_task: Option<u64>,
    sleep_request: Option<u64>,
}

impl SchedContext {
    pub closed spec fn sched_id_spec(&self) -> usize {
        self.sched_id
    }

    pub closed spec fn time_spec(&self) -> u64 {
        self.curr_time_usec
    }

    pub closed spec fn curr_task_spec(&self) -> Option<u64> {
        self.curr_task
    }

    pub closed spec fn sleep_request_spec(&self) -> Option<u64> {
        self.sleep_request
    }

    pub fn new(timestamp: u64, sched_id: usize) -> (ctx: SchedContext)
        ensures
            ctx.sched_id_spec() == sched_id,
            ctx.time_spec() == timestamp,
            ctx.curr_task_spec() is None,
            ctx.sleep_request_spec() is None,
    {
        SchedContext {
            sched_id,
            curr_time_usec: timestamp,
            curr_task: None,
            sleep_request: None,
        }
    }

    pub fn get_time_usec(&self) -> (r: u64)
        ensures
            r == self.time_spec(),
    {
        self.curr_time_usec
    }

    pub fn set_time_usec(&mut self, t: u64)
        ensures
            final(self).time_spec() == t,
            final(self).sched_id_spec() == old(self).sched_id_spec(),
            final(self).curr_task_spec() == old(self).curr_task_spec(),
            final(self).sleep_request_spec() == old(self).sleep_request_spec(),
    {
        self.curr_time_usec = t;
    }

    pub fn get_sched_id(&self) -> (r: usize)
        ensures
            r == self.sched_id_spec(),
    {
        self.sched_id
    }

    pub fn get_curr_task(&self) -> (r: Option<u64>)
        ensures
            r == self.curr_task_spec(),
    {
        self.curr_task
    }

    pub fn set_curr_task(&mut self, task: Option<u64>)
        ensures
            final(self).curr_task_spec() == task,
            final(self).sched_id_spec() == old(self).sched_id_spec(),
            final(self).time_spec() == old(self).time_spec(),
            final(self).sleep_request_spec() == old(self).sleep_request_spec(),
    {
        self.curr_task = task;
    }

    /// Records that the task being polled wants to be woken once virtual
    /// time reaches `deadline_usec`. A task suspends on a single deadline
    /// per poll; the last request of a poll stands.
    pub fn request_sleep(&mut self, deadline_usec: u64)
        ensures
            final(self).sleep_request_spec() == Some(deadline_usec),
            final(self).sched_id_spec() == old(self).sched_id_spec(),
            final(self).time_spec() == old(self).time_spec(),
            final(self).curr_task_spec() == old(self).curr_task_spec(),
    {
        self.sleep_request = Some(deadline_usec);
    }

    /// Hands the recorded suspension deadline to the scheduler and clears it.
    pub fn take_sleep_request(&mut self) -> (r: Option<u64>)
        ensures
            r == old(self).sleep_request_spec(),
            final(self).sleep_request_spec() is None,
            final(self).sched_id_spec() == old(self).sched_id_spec(),
            final(self).time_spec() == old(self).time_spec(),
            final(self).curr_task_spec() == old(self).curr_task_spec(),
    {
        let r = self.sleep_request;
        self.sleep_request = None;
        r
    }
}

} // verus!
