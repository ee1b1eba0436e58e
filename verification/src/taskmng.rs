//! The task table: the canonical owner of every live task, and the
//! generator of their unique ids.

use crate::task::SchedTask;
use vstd::prelude::*;

verus! {

/// Maps ids to live tasks. Ids are assigned strictly increasing, so an id,
/// once handed out, never collides with any live task's id.
pub struct SchedTaskMng<C> {
    id_generator: u64,
    tasks: Vec<SchedTask<C>>,
    /// Every id this table has ever handed out, oldest first.
    assigned: Ghost<Seq<u64>>,
}

impl<C> SchedTaskMng<C> {
    pub closed spec fn gen_spec(&self) -> u64 {
        self.id_generator
    }

    pub closed spec fn tasks_spec(&self) -> Seq<SchedTask<C>> {
        self.tasks@
    }

    pub closed spec fn assigned_spec(&self) -> Seq<u64> {
        self.assigned@
    }

    /// Whether a live task carries the given id.
    pub open spec fn contains_spec(&self, id: u64) -> bool {
        exists|k: int| 0 <= k < self.tasks_spec().len()
            && self.tasks_spec()[k].id_spec() == id
    }

    pub open spec fn wf(&self) -> bool {
        &&& forall|k: int| 0 <= k < self.tasks_spec().len()
            ==> (#[trigger] self.tasks_spec()[k].id_spec()) < self.gen_spec()
        &&& forall|k1: int, k2: int|
            0 <= k1 < k2 < self.tasks_spec().len()
            ==> (#[trigger] self.tasks_spec()[k1].id_spec())
                != (#[trigger] self.tasks_spec()[k2].id_spec())
        &&& forall|i: int, j: int|
            0 <= i < j < self.assigned_spec().len()
            ==> (#[trigger] self.assigned_spec()[i])
                < (#[trigger] self.assigned_spec()[j])
        &&& forall|i: int| 0 <= i < self.assigned_spec().len()
            ==> (#[trigger] self.assigned_spec()[i]) < self.gen_spec()
    }

    pub fn new() -> (m: SchedTaskMng<C>)
        ensures
            m.wf(),
            m.gen_spec() == 1,
            m.tasks_spec() == Seq::<SchedTask<C>>::empty(),
            m.assigned_spec() == Seq::<u64>::empty(),
    {
        SchedTaskMng {
            id_generator: 1,
            tasks: Vec::new(),
            assigned: Ghost(Seq::empty()),
        }
    }

    pub fn task_count(&self) -> (r: usize)
        ensures
            r == self.tasks_spec().len(),
    {
        self.tasks.len()
    }

    pub fn contains_id(&self, id: u64) -> (r: bool)
        ensures
            r == self.contains_spec(id),
    {
        let n = self.tasks.len();
        let mut k: usize = 0;
        while k < n
            invariant
                n == self.tasks_spec().len(),
                0 <= k <= n,
                forall|j: int| 0 <= j < k
                    ==> (#[trigger] self.tasks_spec()[j].id_spec()) != id,
            decreases n - k,
        {
            if self.tasks[k].get_id() == id {
                return true;
            }
            k = k + 1;
        }
        false
    }

    /// Registers a task: assigns it a fresh id and stores it. An id found
    /// occupied is skipped and the next one tried; the attempt fails only
    /// when the id space is exhausted.
    pub fn add_task(&mut self, t: SchedTask<C>) -> (r: Result<u64, ()>)
        requires
            old(self).wf(),
        ensures
            final(self).wf(),
            match r {
                Ok(id) => {
                    &&& !old(self).contains_spec(id)
                    &&& id == old(self).gen_spec()
                    &&& final(self).gen_spec() == id + 1
                    &&& final(self).tasks_spec()
                        == old(self).tasks_spec().push(t.with_id(id))
                    &&& final(self).assigned_spec()
                        == old(self).assigned_spec().push(id)
                },
                Err(()) => {
                    &&& old(self).gen_spec() == u64::MAX
                    &&& final(self).gen_spec() == old(self).gen_spec()
                    &&& final(self).tasks_spec() == old(self).tasks_spec()
                    &&& final(self).assigned_spec() == old(self).assigned_spec()
                },
            },
    {
        let mut tt = t;
        loop
            invariant
                tt == t,
                self.wf(),
                self.gen_spec() == old(self).gen_spec(),
                self.tasks_spec() == old(self).tasks_spec(),
                self.assigned_spec() == old(self).assigned_spec(),
            decreases u64::MAX - self.id_generator,
        {
            let task_id = self.id_generator;
            if task_id == u64::MAX {
                return Err(());
            }
            self.id_generator = task_id + 1;
            if !self.contains_id(task_id) {
                tt.set_id(task_id);
                proof {
                    self.assigned@ = self.assigned@.push(task_id);
                }
                let ghost pre = *self;
                self.tasks.push(tt);
                proof {
                    assert(self.tasks_spec() == pre.tasks_spec().push(tt));
                    assert forall|k1: int, k2: int|
                        0 <= k1 < k2 < self.tasks_spec().len()
                        implies (#[trigger] self.tasks_spec()[k1].id_spec())
                            != (#[trigger] self.tasks_spec()[k2].id_spec()) by {
                        assert(self.tasks_spec()[k1] == pre.tasks_spec()[k1]);
                        assert(pre.tasks_spec()[k1].id_spec() < task_id);
                        if k2 < self.tasks_spec().len() - 1 {
                            assert(self.tasks_spec()[k2] == pre.tasks_spec()[k2]);
                        } else {
                            assert(self.tasks_spec()[k2] == tt);
                        }
                    }
                    assert forall|k: int| 0 <= k < self.tasks_spec().len()
                        implies (#[trigger] self.tasks_spec()[k].id_spec())
                            < self.id_generator by {
                        if k < self.tasks_spec().len() - 1 {
                            assert(self.tasks_spec()[k] == pre.tasks_spec()[k]);
                        } else {
                            assert(self.tasks_spec()[k] == tt);
                        }
                    }
                }
                return Ok(task_id);
            }
        }
    }

    /// Removes and returns the task registered under the given id;
    /// `Err` when no live task carries it.
    pub fn remove_task(&mut self, task_id: u64) -> (r: Result<SchedTask<C>, ()>)
        requires
            old(self).wf(),
        ensures
            final(self).wf(),
            final(self).gen_spec() == old(self).gen_spec(),
            final(self).assigned_spec() == old(self).assigned_spec(),
            match r {
                Ok(t) => {
                    &&& old(self).contains_spec(task_id)
                    &&& t.id_spec() == task_id
                    &&& exists|k: int|
                        0 <= k < old(self).tasks_spec().len()
                        && old(self).tasks_spec()[k] == t
                        && final(self).tasks_spec()
                            == old(self).tasks_spec().remove(k)
                },
                Err(()) => {
                    &&& !old(self).contains_spec(task_id)
                    &&& final(self).tasks_spec() == old(self).tasks_spec()
                },
            },
    {
        let n = self.tasks.len();
        let mut k: usize = 0;
        while k < n
            invariant
                *self == *old(self),
                self.wf(),
                n == self.tasks_spec().len(),
                0 <= k <= n,
                forall|j: int| 0 <= j < k
                    ==> (#[trigger] self.tasks_spec()[j].id_spec()) != task_id,
            decreases n - k,
        {
            if self.tasks[k].get_id() == task_id {
                let ghost pre = *self;
                let t = self.tasks.remove(k);
                proof {
                    lemma_wf_after_remove(pre, *self, k as int);
                }
                return Ok(t);
            }
            k = k + 1;
        }
        Err(())
    }

    /// Puts a task taken out for polling back into the table, under the id
    /// it already carries.
    pub fn reinsert(&mut self, t: SchedTask<C>)
        requires
            old(self).wf(),
            !old(self).contains_spec(t.id_spec()),
            t.id_spec() < old(self).gen_spec(),
        ensures
            final(self).wf(),
            final(self).gen_spec() == old(self).gen_spec(),
            final(self).assigned_spec() == old(self).assigned_spec(),
            final(self).tasks_spec() == old(self).tasks_spec().push(t),
    {
        let ghost pre = *self;
        self.tasks.push(t);
        proof {
            assert(self.tasks_spec() == pre.tasks_spec().push(t));
            assert(self.assigned_spec() == pre.assigned_spec());
            assert forall|i: int, j: int|
                0 <= i < j < self.assigned_spec().len()
                implies (#[trigger] self.assigned_spec()[i])
                    < (#[trigger] self.assigned_spec()[j]) by {
                assert(pre.assigned_spec()[i] < pre.assigned_spec()[j]);
            }
            assert forall|k1: int, k2: int|
                0 <= k1 < k2 < self.tasks_spec().len()
                implies (#[trigger] self.tasks_spec()[k1].id_spec())
                    != (#[trigger] self.tasks_spec()[k2].id_spec()) by {
                assert(self.tasks_spec()[k1] == pre.tasks_spec()[k1]);
                if k2 < self.tasks_spec().len() - 1 {
                    assert(self.tasks_spec()[k2] == pre.tasks_spec()[k2]);
                } else {
                    assert(self.tasks_spec()[k2] == t);
                    if pre.tasks_spec()[k1].id_spec() == t.id_spec() {
                        assert(pre.contains_spec(t.id_spec()));
                        assert(false);
                    }
                }
            }
            assert forall|k: int| 0 <= k < self.tasks_spec().len()
                implies (#[trigger] self.tasks_spec()[k].id_spec())
                    < self.id_generator by {
                if k < self.tasks_spec().len() - 1 {
                    assert(self.tasks_spec()[k] == pre.tasks_spec()[k]);
                } else {
                    assert(self.tasks_spec()[k] == t);
                }
            }
        }
    }
}

proof fn lemma_wf_after_remove<C>(pre: SchedTaskMng<C>, post: SchedTaskMng<C>, k: int)
    requires
        pre.wf(),
        0 <= k < pre.tasks_spec().len(),
        post.tasks_spec() == pre.tasks_spec().remove(k),
        post.gen_spec() == pre.gen_spec(),
        post.assigned_spec() == pre.assigned_spec(),
    ensures
        post.wf(),
{
    assert forall|j: int| 0 <= j < post.tasks_spec().len()
        implies (#[trigger] post.tasks_spec()[j].id_spec()) < post.gen_spec() by {
        if j < k {
            assert(post.tasks_spec()[j] == pre.tasks_spec()[j]);
        } else {
            assert(post.tasks_spec()[j] == pre.tasks_spec()[j + 1]);
        }
    }
    assert forall|k1: int, k2: int|
        0 <= k1 < k2 < post.tasks_spec().len()
        implies post.tasks_spec()[k1].id_spec()
            != post.tasks_spec()[k2].id_spec() by {
        let j1: int = if k1 < k { k1 } else { k1 + 1 };
        let j2: int = if k2 < k { k2 } else { k2 + 1 };
        assert(post.tasks_spec()[k1] == pre.tasks_spec()[j1]);
        assert(post.tasks_spec()[k2] == pre.tasks_spec()[j2]);
    }
}

/// Law: ids are handed out in strictly increasing order, so any two ids
/// assigned by one table are distinct, the later one larger.
pub proof fn lemma_assigned_ids_increasing<C>(m: &SchedTaskMng<C>, i: int, j: int)
    requires
        m.wf(),
        0 <= i < j < m.assigned_spec().len(),
    ensures
        m.assigned_spec()[i] < m.assigned_spec()[j],
{
}

} // verus!
