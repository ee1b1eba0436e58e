//! Control-plane messages a worker's scheduler consumes from its inbox.

use vstd::prelude::*;

verus! {

/// The command tag of a control message. Tags the scheduler does not
/// recognise are carried as `Unknown` and silently ignored.
#[derive(Clone, Copy, Debug, PartialEq, Eq, Structural)]
pub enum SchedCmd {
    /// Register the carried computation as a new task.
    NewTask,
    /// Stop the worker's run loop.
    Quit,
    /// Anything else; ignored.
    Unknown,
}

/// A control message: a command tag and, for `NewTask`, the computation to
/// register. The payload is taken out by the scheduler exactly once.
pub struct SchedMsg<C> {
    cmd: SchedCmd,
    task_func: Option<C>,
}

impl<C> SchedMsg<C> {
    pub closed spec fn cmd_spec(&self) -> SchedCmd {
        self.cmd
    }

    pub closed spec fn task_spec(&self) -> Option<C> {
        self.task_func
    }

    pub fn new(cmd: SchedCmd, task_func: Option<C>) -> (m: SchedMsg<C>)
        ensures
            m.cmd_spec() == cmd,
            m.task_spec() == task_func,
    {
        SchedMsg { cmd, task_func }
    }

    pub fn get_cmd(&self) -> (r: SchedCmd)
        ensures
            r == self.cmd_spec(),
    {
        self.cmd
    }

    /// Takes the carried computation out of the message.
    pub fn get_task_func(&mut self) -> (r: Option<C>)
        ensures
            r == old(self).task_spec(),
            final(self).task_spec() is None,
            final(self).cmd_spec() == old(self).cmd_spec(),
    {
        self.task_func.take()
    }
}

} // verus!
