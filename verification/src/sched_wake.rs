//! The wake capability: an opaque, clonable handle built from a scheduling
//! context. A suspension primitive running inside a poll can ask it which
//! scheduler and which task it is running under. Invoking it is an
//! observability no-op in this runtime: rescheduling of a suspended task is
//! driven entirely by the timer wheel's time-based harvest.

use crate::sched_context::SchedContext;
use vstd::prelude::*;

verus! {

/// The wake interface a context offers to foreign suspension primitives.
pub trait SchedWake: Sized {
    /// Signals a wake-up request, consuming (releasing) this handle.
    fn wake(self);
    /// Signals a wake-up request without consuming the handle.
    fn wake_by_ref(&self);
}

impl SchedWake for SchedContext {
    fn wake(self) {
        self.wake_by_ref();
    }

    fn wake_by_ref(&self) {
    }
}

/// A clonable capability wrapping the identity recorded in a scheduling
/// context at the moment it was created.
#[derive(Clone, Copy)]
pub struct WakeCapability {
    sched_id: usize,
    task_id: Option<u64>,
}

impl WakeCapability {
    pub closed spec fn sched_id_spec(&self) -> usize {
        self.sched_id
    }

    pub closed spec fn task_id_spec(&self) -> Option<u64> {
        self.task_id
    }

    /// Which scheduler the wrapped context belongs to.
    pub fn get_sched_id(&self) -> (r: usize)
        ensures
            r == self.sched_id_spec(),
    {
        self.sched_id
    }

    /// Which task was being polled when this capability was created.
    pub fn get_task_id(&self) -> (r: Option<u64>)
        ensures
            r == self.task_id_spec(),
    {
        self.task_id
    }

    /// Requests a wake-up, consuming one reference to the capability.
    /// Inert by design: wake-ups come from the timer wheel alone.
    pub fn invoke(self) {
        self.invoke_by_ref();
    }

    /// Requests a wake-up without consuming the capability. Inert, as
    /// `invoke` is.
    pub fn invoke_by_ref(&self) {
    }
}

/// Builds the wake capability handed to a poll, from the context that
/// drives the poll.
pub fn sched_waker_create(ctx: &SchedContext) -> (w: WakeCapability)
    ensures
        w.sched_id_spec() == ctx.sched_id_spec(),
        w.task_id_spec() == ctx.curr_task_spec(),
{
    WakeCapability { sched_id: ctx.get_sched_id(), task_id: ctx.get_curr_task() }
}

} // verus!
