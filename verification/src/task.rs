//! One registered unit of work: a unique id, a name, and the suspendable
//! computation it runs.

use crate::pollable::{Advance, Pollable};
use crate::sched_context::SchedContext;
use vstd::prelude::*;

verus! {

pub struct SchedTask<C> {
    id: u64,
    name: String,
    exe_block: Option<C>,
}

impl<C> SchedTask<C> {
    pub closed spec fn id_spec(&self) -> u64 {
        self.id
    }

    pub closed spec fn name_spec(&self) -> Seq<char> {
        self.name@
    }

    pub closed spec fn block_spec(&self) -> Option<C> {
        self.exe_block
    }

    /// The same task under another id.
    pub closed spec fn with_id(self, id: u64) -> SchedTask<C> {
        SchedTask { id, ..self }
    }

    pub fn new(name: String, exe: C) -> (t: SchedTask<C>)
        ensures
            t.id_spec() == 0,
            t.name_spec() == name@,
            t.block_spec() == Some(exe),
    {
        SchedTask { id: 0, name, exe_block: Some(exe) }
    }

    pub fn set_id(&mut self, id: u64)
        ensures
            *final(self) == old(self).with_id(id),
            final(self).id_spec() == id,
            final(self).name_spec() == old(self).name_spec(),
            final(self).block_spec() == old(self).block_spec(),
    {
        self.id = id;
    }

    pub fn get_id(&self) -> (r: u64)
        ensures
            r == self.id_spec(),
    {
        self.id
    }

    /// The suspendable computation, when the task still holds one.
    pub fn get_task_fut(&self) -> (r: Option<&C>)
        ensures
            match r {
                Some(c) => self.block_spec() == Some(*c),
                None => self.block_spec() is None,
            },
    {
        self.exe_block.as_ref()
    }

    /// Advances the carried computation one step; `None` when the task has
    /// no computation to run.
    pub fn poll_block(&mut self, ctx: &mut SchedContext) -> (r: Option<Advance>)
        where C: Pollable
        requires
            old(ctx).curr_task_spec() is Some,
        ensures
            final(self).id_spec() == old(self).id_spec(),
            final(self).name_spec() == old(self).name_spec(),
            r is None <==> old(self).block_spec() is None,
            r is None ==> *final(self) == *old(self) && *final(ctx) == *old(ctx),
            final(self).block_spec() is Some <==> old(self).block_spec() is Some,
    {
        match self.exe_block.take() {
            None => None,
            Some(mut c) => {
                let outcome = c.advance(ctx);
                self.exe_block = Some(c);
                Some(outcome)
            }
        }
    }
}

/// What renaming a task's id does: the id changes, nothing else.
pub broadcast proof fn lemma_with_id<C>(t: SchedTask<C>, id: u64)
    ensures
        (#[trigger] t.with_id(id)).id_spec() == id,
        t.with_id(id).name_spec() == t.name_spec(),
        t.with_id(id).block_spec() == t.block_spec(),
{
}

} // verus!
