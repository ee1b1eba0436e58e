//! The resumable-computation interface: a task's payload is advanced one
//! step at a time under a scheduling context, and reports whether it is
//! finished or suspended.

use crate::sched_context::SchedContext;
use vstd::prelude::*;

verus! {

/// Outcome of advancing a computation one step.
pub enum Advance {
    /// The computation suspended. If it wants to resume, it must have
    /// recorded a wake-up deadline in the context during this very poll;
    /// otherwise it is never polled again.
    Pending,
    /// The computation finished.
    Ready,
}

/// A suspendable computation, polled to completion by a scheduler.
/// The scheduler names the task being polled in the context before
/// every call, so an implementation may rely on that.
pub trait Pollable: Sized {
    fn advance(&mut self, ctx: &mut SchedContext) -> Advance
        requires
            old(ctx).curr_task_spec() is Some,
    ;
}

} // verus!
