//! The per-worker run loop's state and decisions: the task table, the
//! ready queue, the timer wheel and the clock, composed into one
//! scheduler. One step of the loop consumes at most one control message,
//! drains the ready queue, polling each task once, and harvests the timer
//! wheel back into the ready queue. The loop itself, together with the
//! channel it receives from, lives with the worker thread that owns the
//! scheduler.

use crate::pollable::{Advance, Pollable};
use crate::runqueue::RunQueue;
use crate::runtime::Runtime;
use crate::sched_context::SchedContext;
use crate::sched_msg::{SchedCmd, SchedMsg};
use crate::sched_sleep_ring::{
    cursor_after, distinct_seq, due_node_with_id, harvest_hi, harvested_state,
    lemma_add_node_effect, lemma_harvested_subset, none_lost, removed_from,
    result_complete, result_sound, SchedSleepRing, SleepRingNode,
};
use crate::sleep_async_node::SleepAsyncNode;
use crate::task::SchedTask;
use crate::taskmng::SchedTaskMng;
use crate::tsc_time_clock::{raw_counter_sample, TscClock, USEC_HZ};
use vstd::prelude::*;

verus! {

/// `a` occurs somewhere before `b` in `sup`.
pub open spec fn occur_in_order(a: u64, b: u64, sup: Seq<u64>) -> bool {
    exists|i1: int, i2: int| #![trigger sup[i1], sup[i2]]
        0 <= i1 < i2 < sup.len() && sup[i1] == a && sup[i2] == b
}

/// Every two elements of `sub` occur in `sup`, in the same relative
/// order.
pub open spec fn pairs_in_order(sub: Seq<u64>, sup: Seq<u64>) -> bool {
    forall|k1: int, k2: int| #![trigger sub[k1], sub[k2]]
        0 <= k1 < k2 < sub.len()
        ==> occur_in_order(sub[k1], sub[k2], sup)
}

/// What a run-loop step decided: keep going, or stop the worker.
#[derive(Clone, Copy, Debug, PartialEq, Eq, Structural)]
pub enum StepOutcome {
    Continue,
    Stopped,
}

pub struct Scheduler<C> {
    name: String,
    task_mng: SchedTaskMng<C>,
    task_run_queue: RunQueue,
    task_sleep_ring: SchedSleepRing,
    runtime: Runtime,
    clock: TscClock,
    sched_ctx: SchedContext,
    /// Every task id this scheduler has polled, in poll order.
    polled: Ghost<Seq<u64>>,
    /// For each poll, the wake-up deadline that poll asked for: `Some(d)`
    /// for a poll that suspended asking to be woken at `d`, `None` for a
    /// poll that asked for nothing or whose task completed (a completing
    /// poll's request is discarded).
    sleep_log: Ghost<Seq<Option<u64>>>,
}

impl<C: Pollable> Scheduler<C> {
    pub closed spec fn mng_spec(&self) -> SchedTaskMng<C> {
        self.task_mng
    }

    pub closed spec fn queue_spec(&self) -> Seq<u64> {
        self.task_run_queue@
    }

    pub closed spec fn ring_spec(&self) -> SchedSleepRing {
        self.task_sleep_ring
    }

    pub closed spec fn time_spec(&self) -> u64 {
        self.runtime.time_spec()
    }

    pub closed spec fn polled_spec(&self) -> Seq<u64> {
        self.polled@
    }

    pub closed spec fn sleep_log_spec(&self) -> Seq<Option<u64>> {
        self.sleep_log@
    }

    pub closed spec fn clock_spec(&self) -> TscClock {
        self.clock
    }

    pub closed spec fn ctx_spec(&self) -> SchedContext {
        self.sched_ctx
    }

    /// A live task is in exactly one place: the ready queue, the timer
    /// wheel, or (while being polled) the scheduler's hands; the table
    /// tracks them all, and nothing outside the table is queued or
    /// parked.
    pub open spec fn wf(&self) -> bool {
        &&& self.mng_spec().wf()
        &&& self.ring_spec().wf()
        &&& self.ring_spec().ids_distinct()
        &&& distinct_seq(self.queue_spec())
        &&& forall|k: int| 0 <= k < self.queue_spec().len()
            ==> self.mng_spec().contains_spec(#[trigger] self.queue_spec()[k])
        &&& forall|id: u64| #[trigger] self.ring_spec().has_task(id)
            ==> self.mng_spec().contains_spec(id)
        &&& forall|k: int| 0 <= k < self.queue_spec().len()
            ==> !self.ring_spec().has_task(#[trigger] self.queue_spec()[k])
        &&& self.clock_spec().wf()
        &&& self.time_spec() == self.clock_spec().now_spec()
        &&& self.ctx_spec().curr_task_spec() is None
        &&& self.ctx_spec().sleep_request_spec() is None
        &&& self.sleep_log_spec().len() == self.polled_spec().len()
    }

    /// A fresh scheduler: empty table, empty queue, empty wheel, clock
    /// calibrated against the wall-clock sampler.
    pub fn new(name: String) -> (s: Scheduler<C>)
        ensures
            s.wf(),
            s.mng_spec().tasks_spec().len() == 0,
            s.mng_spec().assigned_spec().len() == 0,
            s.queue_spec().len() == 0,
            s.polled_spec().len() == 0,
            s.sleep_log_spec().len() == 0,
            forall|id: u64| !(#[trigger] s.ring_spec().has_task(id)),
    {
        let initial_raw = raw_counter_sample();
        let s = Scheduler {
            name,
            task_mng: SchedTaskMng::new(),
            task_run_queue: RunQueue::new(),
            task_sleep_ring: SchedSleepRing::new(10000),
            runtime: Runtime::new(),
            clock: TscClock::new(USEC_HZ, initial_raw),
            sched_ctx: SchedContext::new(0, 0),
            polled: Ghost(Seq::empty()),
            sleep_log: Ghost(Seq::empty()),
        };
        proof {
            assert forall|id: u64| !(#[trigger] s.ring_spec().has_task(id)) by {
                if s.ring_spec().has_task(id) {
                    let (p, i): (int, int) = choose|p: int, i: int|
                        0 <= p < s.ring_spec().slots_spec().len()
                            && 0 <= i < s.ring_spec().slots_spec()[p].len()
                            && (#[trigger] s.ring_spec().slots_spec()[p][i]).task_id
                                == id;
                }
            }
        }
        s
    }

    /// The scheduler's current virtual time.
    pub fn get_time_usec(&self) -> (r: u64)
        ensures
            r == self.time_spec(),
    {
        self.runtime.get_time_usec()
    }

    /// How many tasks are live.
    pub fn task_count(&self) -> (r: usize)
        ensures
            r == self.mng_spec().tasks_spec().len(),
    {
        self.task_mng.task_count()
    }

    /// A suspension value that sleeps for `dur_usec` past current virtual
    /// time.
    pub fn sched_sleep(&self, dur_usec: u64) -> (n: SleepAsyncNode)
        ensures
            n.deadline_spec() == if self.time_spec() + dur_usec <= u64::MAX {
                (self.time_spec() + dur_usec) as u64
            } else {
                u64::MAX
            },
    {
        self.runtime.sleep(dur_usec)
    }

    /// Refreshes virtual time from the monotonic clock; time never moves
    /// backward.
    fn refresh_time(&mut self) -> (t: u64)
        requires
            old(self).clock_spec().wf(),
            old(self).time_spec() == old(self).clock_spec().now_spec(),
        ensures
            final(self).clock_spec().wf(),
            t == final(self).time_spec() == final(self).clock_spec().now_spec(),
            t >= old(self).time_spec(),
            final(self).mng_spec() == old(self).mng_spec(),
            final(self).queue_spec() == old(self).queue_spec(),
            final(self).ring_spec() == old(self).ring_spec(),
            final(self).polled_spec() == old(self).polled_spec(),
            final(self).sleep_log_spec() == old(self).sleep_log_spec(),
            final(self).ctx_spec().curr_task_spec()
                == old(self).ctx_spec().curr_task_spec(),
            final(self).ctx_spec().sleep_request_spec()
                == old(self).ctx_spec().sleep_request_spec(),
            final(self).ctx_spec().time_spec() == t,
    {
        let raw = raw_counter_sample();
        let t = self.clock.rdtsc_usec(raw);
        self.runtime.set_time_usec(t);
        self.sched_ctx.set_time_usec(t);
        t
    }

    /// Consumes one control message: registers the carried computation as
    /// a new ready task, stops the worker, or ignores a tag it does not
    /// know. Registration fails silently only when the id space is
    /// exhausted.
    pub fn handle_message(&mut self, msg: SchedMsg<C>) -> (r: StepOutcome)
        requires
            old(self).wf(),
        ensures
            final(self).wf(),
            final(self).time_spec() == old(self).time_spec(),
            final(self).ring_spec() == old(self).ring_spec(),
            final(self).polled_spec() == old(self).polled_spec(),
            final(self).sleep_log_spec() == old(self).sleep_log_spec(),
            final(self).mng_spec().gen_spec() >= old(self).mng_spec().gen_spec(),
            r == StepOutcome::Stopped <==> msg.cmd_spec() == SchedCmd::Quit,
            msg.cmd_spec() == SchedCmd::Quit ==> final(self).mng_spec()
                == old(self).mng_spec() && final(self).queue_spec()
                == old(self).queue_spec(),
            msg.cmd_spec() != SchedCmd::Quit && (msg.cmd_spec() != SchedCmd::NewTask
                || msg.task_spec() is None) ==> final(self).mng_spec()
                == old(self).mng_spec() && final(self).queue_spec()
                == old(self).queue_spec(),
            msg.cmd_spec() == SchedCmd::NewTask && msg.task_spec() is Some
                && old(self).mng_spec().gen_spec() < u64::MAX ==> ({
                let id = old(self).mng_spec().gen_spec();
                &&& !old(self).mng_spec().contains_spec(id)
                &&& final(self).queue_spec() == old(self).queue_spec().push(id)
                &&& final(self).mng_spec().gen_spec() == id + 1
                &&& final(self).mng_spec().tasks_spec().len()
                    == old(self).mng_spec().tasks_spec().len() + 1
                &&& final(self).mng_spec().assigned_spec()
                    == old(self).mng_spec().assigned_spec().push(id)
                &&& forall|x: u64| final(self).mng_spec().contains_spec(x)
                    <==> (old(self).mng_spec().contains_spec(x) || x == id)
            }),
            msg.cmd_spec() == SchedCmd::NewTask && msg.task_spec() is Some
                && old(self).mng_spec().gen_spec() == u64::MAX
                ==> final(self).mng_spec().tasks_spec()
                    == old(self).mng_spec().tasks_spec()
                    && final(self).mng_spec().assigned_spec()
                        == old(self).mng_spec().assigned_spec()
                    && final(self).queue_spec() == old(self).queue_spec(),
    {
        let mut msg = msg;
        match msg.get_cmd() {
            SchedCmd::Quit => StepOutcome::Stopped,
            SchedCmd::NewTask => {
                match msg.get_task_func() {
                    Some(func) => {
                        let new_task = SchedTask::new(self.name.clone(), func);
                        let ghost pre = *self;
                        match self.task_mng.add_task(new_task) {
                            Ok(new_id) => {
                                proof {
                                    lemma_contains_after_push(
                                        pre.mng_spec(),
                                        self.task_mng,
                                        new_id,
                                    );
                                }
                                self.task_run_queue.push_one_task(new_id);
                                proof {
                                    assert forall|k: int|
                                        0 <= k < self.queue_spec().len()
                                        implies self.mng_spec().contains_spec(
                                            #[trigger] self.queue_spec()[k],
                                        ) by {
                                        if k < self.queue_spec().len() - 1 {
                                            assert(self.queue_spec()[k]
                                                == pre.queue_spec()[k]);
                                        }
                                    }
                                }
                            }
                            Err(()) => {}
                        }
                        StepOutcome::Continue
                    }
                    None => StepOutcome::Continue,
                }
            }
            SchedCmd::Unknown => StepOutcome::Continue,
        }
    }
}

impl<C: Pollable> Scheduler<C> {
    /// Drains the ready queue to exhaustion, polling each task once, in
    /// queue (first-in-first-out) order. A task whose poll completes is
    /// removed from the table, exactly once, and its id returned; one
    /// whose poll suspends stays in the table and, if it asked for a
    /// wake-up deadline during that very poll, is parked in the timer
    /// wheel — otherwise it is never polled again, which is the
    /// documented hazard of suspending without a deadline. A deadline
    /// requested by a poll that completes anyway is discarded.
    #[verifier::rlimit(50)]
    pub fn poll_ready_tasks(&mut self) -> (completed: Vec<u64>)
        requires
            old(self).wf(),
        ensures
            final(self).wf(),
            final(self).queue_spec().len() == 0,
            final(self).polled_spec() == old(self).polled_spec()
                + old(self).queue_spec(),
            final(self).time_spec() >= old(self).time_spec(),
            final(self).mng_spec().gen_spec() == old(self).mng_spec().gen_spec(),
            final(self).mng_spec().assigned_spec()
                == old(self).mng_spec().assigned_spec(),
            distinct_seq(completed@),
            forall|k: int| 0 <= k < completed@.len()
                ==> old(self).queue_spec().contains(#[trigger] completed@[k]),
            pairs_in_order(completed@, old(self).queue_spec()),
            forall|id: u64| #[trigger] final(self).mng_spec().contains_spec(id)
                <==> (old(self).mng_spec().contains_spec(id)
                    && !completed@.contains(id)),
            forall|id: u64| #[trigger] final(self).ring_spec().has_task(id)
                ==> old(self).ring_spec().has_task(id)
                    || old(self).queue_spec().contains(id),
            final(self).ring_spec().dur_spec()
                == old(self).ring_spec().dur_spec(),
            final(self).ring_spec().size_spec()
                == old(self).ring_spec().size_spec(),
            final(self).ring_spec().cursor_spec()
                == old(self).ring_spec().cursor_spec(),
            final(self).ring_spec().slots_spec().len()
                == old(self).ring_spec().slots_spec().len(),
            forall|p: int| 0 <= p < old(self).ring_spec().slots_spec().len()
                ==> (#[trigger] old(self).ring_spec().slots_spec()[p]).is_prefix_of(
                    final(self).ring_spec().slots_spec()[p],
                ),
            forall|p: int, i: int|
                0 <= p < old(self).ring_spec().slots_spec().len()
                    && old(self).ring_spec().slots_spec()[p].len() <= i
                    < final(self).ring_spec().slots_spec()[p].len()
                ==> old(self).queue_spec().contains(
                    (#[trigger] final(self).ring_spec().slots_spec()[p][i]).task_id,
                ),
            old(self).sleep_log_spec().is_prefix_of(final(self).sleep_log_spec()),
            final(self).sleep_log_spec().len() == final(self).polled_spec().len(),
            forall|k: int|
                old(self).polled_spec().len() <= k < final(self).polled_spec().len()
                ==> match #[trigger] final(self).sleep_log_spec()[k] {
                    Some(d) => final(self).ring_spec().has_node(
                        (SleepRingNode {
                            delay_to: d,
                            task_id: final(self).polled_spec()[k],
                            vslot: Ghost(old(self).ring_spec().insert_vslot(d)),
                        }),
                    ),
                    None => !final(self).ring_spec().has_task(
                        final(self).polled_spec()[k],
                    ),
                },
    {
        let ghost orig = *self;
        let ghost qlen = orig.queue_spec().len() as int;
        let mut completed: Vec<u64> = Vec::new();
        let ghost i: int = 0;
        while self.task_run_queue.len() > 0
            invariant
                orig.wf(),
                self.wf(),
                0 <= i <= qlen,
                qlen == orig.queue_spec().len(),
                self.queue_spec() == orig.queue_spec().subrange(i, qlen),
                self.polled_spec() == orig.polled_spec()
                    + orig.queue_spec().subrange(0, i),
                self.time_spec() >= orig.time_spec(),
                self.mng_spec().gen_spec() == orig.mng_spec().gen_spec(),
                self.mng_spec().assigned_spec() == orig.mng_spec().assigned_spec(),
                distinct_seq(completed@),
                forall|k: int| 0 <= k < completed@.len()
                    ==> orig.queue_spec().subrange(0, i).contains(
                        #[trigger] completed@[k],
                    ),
                pairs_in_order(completed@, orig.queue_spec()),
                forall|id: u64| #[trigger] self.mng_spec().contains_spec(id)
                    <==> (orig.mng_spec().contains_spec(id)
                        && !completed@.contains(id)),
                forall|id: u64| #[trigger] self.ring_spec().has_task(id)
                    ==> orig.ring_spec().has_task(id)
                        || orig.queue_spec().subrange(0, i).contains(id),
                self.ring_spec().dur_spec() == orig.ring_spec().dur_spec(),
                self.ring_spec().size_spec() == orig.ring_spec().size_spec(),
                self.ring_spec().cursor_spec() == orig.ring_spec().cursor_spec(),
                self.ring_spec().slots_spec().len()
                    == orig.ring_spec().slots_spec().len(),
                forall|p: int| 0 <= p < orig.ring_spec().slots_spec().len()
                    ==> (#[trigger] orig.ring_spec().slots_spec()[p]).is_prefix_of(
                        self.ring_spec().slots_spec()[p],
                    ),
                forall|p: int, j: int|
                    0 <= p < orig.ring_spec().slots_spec().len()
                        && orig.ring_spec().slots_spec()[p].len() <= j
                        < self.ring_spec().slots_spec()[p].len()
                    ==> orig.queue_spec().contains(
                        (#[trigger] self.ring_spec().slots_spec()[p][j]).task_id,
                    ),
                orig.sleep_log_spec().is_prefix_of(self.sleep_log_spec()),
                self.sleep_log_spec().len() == self.polled_spec().len(),
                forall|k: int|
                    orig.polled_spec().len() <= k < self.polled_spec().len()
                    ==> match #[trigger] self.sleep_log_spec()[k] {
                        Some(d) => self.ring_spec().has_node(
                            (SleepRingNode {
                                delay_to: d,
                                task_id: self.polled_spec()[k],
                                vslot: Ghost(orig.ring_spec().insert_vslot(d)),
                            }),
                        ),
                        None => !self.ring_spec().has_task(self.polled_spec()[k]),
                    },
            decreases qlen - i,
        {
            let ghost head = *self;
            let id = match self.task_run_queue.take_one_task() {
                Some(id) => id,
                None => vstd::pervasive::unreached(),
            };
            proof {
                assert(id == orig.queue_spec()[i]);
                assert(self.queue_spec()
                    =~= orig.queue_spec().subrange(i + 1, qlen));
                assert(orig.queue_spec().contains(id));
                // The id was never processed before this iteration: the
                // queue held each id once.
                assert forall|k: int| 0 <= k < i
                    implies (#[trigger] orig.queue_spec().subrange(0, i)[k])
                        != id by {
                    assert(orig.queue_spec().subrange(0, i)[k]
                        == orig.queue_spec()[k]);
                }
                assert(!orig.queue_spec().subrange(0, i).contains(id));
                if completed@.contains(id) {
                    let w = choose|w: int|
                        0 <= w < completed@.len() && completed@[w] == id;
                    assert(orig.queue_spec().subrange(0, i).contains(id));
                }
                assert(!completed@.contains(id));
                assert(self.mng_spec().contains_spec(id));
            }
            let ghost mng_before = self.mng_spec();
            let mut task = match self.task_mng.remove_task(id) {
                Ok(t) => t,
                Err(()) => vstd::pervasive::unreached(),
            };
            proof {
                let k = choose|k: int|
                    0 <= k < mng_before.tasks_spec().len()
                        && mng_before.tasks_spec()[k] == task
                        && self.mng_spec().tasks_spec()
                            == mng_before.tasks_spec().remove(k);
                lemma_contains_after_remove(mng_before, self.mng_spec(), k, id);
            }
            self.sched_ctx.set_curr_task(Some(id));
            self.refresh_time();
            let ghost mid = *self;
            let outcome = task.poll_block(&mut self.sched_ctx);
            proof {
                // The poll touched only the task and the context.
                assert(self.mng_spec() == mid.mng_spec());
                assert(self.ring_spec() == mid.ring_spec());
                assert(task.id_spec() == id);
                // The taken-out task's id is below the generator, and in
                // neither the queue nor the wheel.
                let k2 = choose|k2: int|
                    0 <= k2 < orig.mng_spec().tasks_spec().len()
                        && orig.mng_spec().tasks_spec()[k2].id_spec() == id;
                assert(id < self.mng_spec().gen_spec());
            }
            let ghost cprev = completed@;
            let ghost mut req: Option<u64> = None;
            match outcome {
                None => {
                    let ghost mng_pre = self.mng_spec();
                    self.task_mng.reinsert(task);
                    proof {
                        lemma_contains_after_reinsert(
                            mng_pre,
                            self.mng_spec(),
                            task,
                        );
                    }
                }
                Some(Advance::Ready) => {
                    let _ = self.sched_ctx.take_sleep_request();
                    completed.push(id);
                }
                Some(Advance::Pending) => {
                    let ghost mng_pre = self.mng_spec();
                    self.task_mng.reinsert(task);
                    proof {
                        lemma_contains_after_reinsert(
                            mng_pre,
                            self.mng_spec(),
                            task,
                        );
                    }
                    match self.sched_ctx.take_sleep_request() {
                        Some(deadline) => {
                            let ghost ring_pre = self.ring_spec();
                            proof {
                                assert(!ring_pre.has_task(id));
                            }
                            self.task_sleep_ring.add_task_node(deadline, id);
                            proof {
                                lemma_add_node_effect(
                                    ring_pre,
                                    self.ring_spec(),
                                    deadline,
                                    id,
                                );
                                req = Some(deadline);
                                // The task is parked under exactly the
                                // requested deadline, filed as of the
                                // drain's (unmoved) cursor.
                                let v = ring_pre.insert_vslot(deadline);
                                let p = (v % ring_pre.size_spec()) as int;
                                assert(v == orig.ring_spec().insert_vslot(deadline));
                                assert(0 <= p < self.ring_spec().slots_spec().len());
                                assert(self.ring_spec().slots_spec()[p].last()
                                    == (SleepRingNode {
                                    delay_to: deadline,
                                    task_id: id,
                                    vslot: Ghost(v),
                                }));
                                assert(self.ring_spec().has_node(
                                    (SleepRingNode {
                                        delay_to: deadline,
                                        task_id: id,
                                        vslot: Ghost(
                                            orig.ring_spec().insert_vslot(deadline),
                                        ),
                                    }),
                                ));
                                // Every earlier slot content is kept.
                                assert forall|q: int|
                                    0 <= q < ring_pre.slots_spec().len()
                                    implies (#[trigger] ring_pre.slots_spec()[q]).is_prefix_of(
                                        self.ring_spec().slots_spec()[q],
                                    ) by {
                                    if q == p {
                                        assert(self.ring_spec().slots_spec()[q]
                                            == ring_pre.slots_spec()[q].push(
                                            (SleepRingNode {
                                                delay_to: deadline,
                                                task_id: id,
                                                vslot: Ghost(v),
                                            }),
                                        ));
                                        assert(ring_pre.slots_spec()[q]
                                            =~= self.ring_spec().slots_spec()[q].subrange(
                                            0,
                                            ring_pre.slots_spec()[q].len() as int,
                                        ));
                                    } else {
                                        assert(self.ring_spec().slots_spec()[q]
                                            == ring_pre.slots_spec()[q]);
                                        assert(ring_pre.slots_spec()[q]
                                            =~= self.ring_spec().slots_spec()[q].subrange(
                                            0,
                                            ring_pre.slots_spec()[q].len() as int,
                                        ));
                                    }
                                }
                            }
                        }
                        None => {}
                    }
                }
            }
            self.sched_ctx.set_curr_task(None);
            proof {
                // What this iteration did, whichever way the poll went:
                // the table holds the head's live ids, minus this one if
                // it completed; the wheel gained at most this one; and a
                // completed task leaves the wheel untouched.
                let fin = completed@.len() > cprev.len();
                assert(completed@ == if fin { cprev.push(id) } else { cprev });
                assert(!head.ring_spec().has_task(id));
                assert forall|x: u64| #[trigger] self.mng_spec().contains_spec(x)
                    <==> (head.mng_spec().contains_spec(x) && !(x == id && fin)) by {
                }
                assert forall|x: u64| #[trigger] self.ring_spec().has_task(x)
                    implies (head.ring_spec().has_task(x) || x == id) by {
                }
                assert forall|x: u64| #[trigger] head.ring_spec().has_task(x)
                    implies self.ring_spec().has_task(x) by {
                }
                assert(fin ==> self.ring_spec() == head.ring_spec());
                assert(req is None ==> self.ring_spec() == head.ring_spec());
                // The wheel's geometry is untouched and every slot only
                // grew at its back.
                assert forall|p: int|
                    0 <= p < orig.ring_spec().slots_spec().len()
                    implies (#[trigger] orig.ring_spec().slots_spec()[p]).is_prefix_of(
                        self.ring_spec().slots_spec()[p],
                    ) by {
                    assert(orig.ring_spec().slots_spec()[p].is_prefix_of(
                        head.ring_spec().slots_spec()[p],
                    ));
                    if self.ring_spec() == head.ring_spec() {
                        assert(head.ring_spec().slots_spec()[p]
                            =~= self.ring_spec().slots_spec()[p].subrange(
                            0,
                            head.ring_spec().slots_spec()[p].len() as int,
                        ));
                    }
                    assert(head.ring_spec().slots_spec()[p].is_prefix_of(
                        self.ring_spec().slots_spec()[p],
                    ));
                    lemma_prefix_trans(
                        orig.ring_spec().slots_spec()[p],
                        head.ring_spec().slots_spec()[p],
                        self.ring_spec().slots_spec()[p],
                    );
                }
                assert forall|p: int, j: int|
                    0 <= p < orig.ring_spec().slots_spec().len()
                        && orig.ring_spec().slots_spec()[p].len() <= j
                        < self.ring_spec().slots_spec()[p].len()
                    implies orig.queue_spec().contains(
                        (#[trigger] self.ring_spec().slots_spec()[p][j]).task_id,
                    ) by {
                    if j < head.ring_spec().slots_spec()[p].len() {
                        assert(head.ring_spec().slots_spec()[p]
                            == self.ring_spec().slots_spec()[p].subrange(
                            0,
                            head.ring_spec().slots_spec()[p].len() as int,
                        ));
                        assert(self.ring_spec().slots_spec()[p][j]
                            == head.ring_spec().slots_spec()[p][j]);
                    } else {
                        // Only the parked arm appends, and it appends the
                        // polled task's own id.
                        assert(self.ring_spec().slots_spec()[p][j].task_id == id);
                        assert(orig.queue_spec()[i] == id);
                    }
                }
                // The completed list's membership grew by at most this id.
                assert forall|x: u64| #[trigger] completed@.contains(x)
                    implies (cprev.contains(x) || (x == id && fin)) by {
                    let w = choose|w: int|
                        0 <= w < completed@.len() && completed@[w] == x;
                    if fin && w == completed@.len() - 1 {
                    } else {
                        assert(completed@[w] == cprev[w]);
                    }
                }
                assert forall|x: u64| cprev.contains(x)
                    implies #[trigger] completed@.contains(x) by {
                    let w = choose|w: int|
                        0 <= w < cprev.len() && cprev[w] == x;
                    assert(completed@[w] == x);
                }
                if fin {
                    assert(completed@[completed@.len() - 1] == id);
                    assert(completed@.contains(id));
                }
                // The scheduler invariant is restored.
                assert forall|x: u64| #[trigger] self.mng_spec().contains_spec(x)
                    <==> (orig.mng_spec().contains_spec(x)
                        && !completed@.contains(x)) by {
                    let hc = head.mng_spec().contains_spec(x);
                    let oc = orig.mng_spec().contains_spec(x);
                    let cc = completed@.contains(x);
                    let pc = cprev.contains(x);
                    if x == id && !fin {
                        assert(!cprev.contains(x));
                    }
                }
                assert forall|k: int| 0 <= k < self.queue_spec().len()
                    implies self.mng_spec().contains_spec(
                        #[trigger] self.queue_spec()[k],
                    ) by {
                    assert(self.queue_spec()[k] == head.queue_spec()[k + 1]);
                    assert(head.mng_spec().contains_spec(head.queue_spec()[k + 1]));
                    assert(head.queue_spec()[k + 1] != head.queue_spec()[0]);
                }
                assert forall|id2: u64| #[trigger] self.ring_spec().has_task(id2)
                    implies self.mng_spec().contains_spec(id2) by {
                    if head.ring_spec().has_task(id2) {
                        assert(head.mng_spec().contains_spec(id2));
                        assert(id2 != id);
                    } else {
                        assert(id2 == id);
                        assert(!fin);
                        assert(head.mng_spec().contains_spec(id));
                    }
                }
                assert forall|k: int| 0 <= k < self.queue_spec().len()
                    implies !self.ring_spec().has_task(
                        #[trigger] self.queue_spec()[k],
                    ) by {
                    assert(self.queue_spec()[k] == head.queue_spec()[k + 1]);
                    assert(!head.ring_spec().has_task(head.queue_spec()[k + 1]));
                    assert(head.queue_spec()[k + 1] != head.queue_spec()[0]);
                }
                let ghost log_pre = self.sleep_log@;
                self.polled@ = self.polled@.push(id);
                self.sleep_log@ = self.sleep_log@.push(req);
                assert(orig.sleep_log_spec()
                    =~= self.sleep_log_spec().subrange(
                    0,
                    orig.sleep_log_spec().len() as int,
                ));
                assert forall|k: int|
                    orig.polled_spec().len() <= k < self.polled_spec().len()
                    implies match #[trigger] self.sleep_log_spec()[k] {
                        Some(d) => self.ring_spec().has_node(
                            (SleepRingNode {
                                delay_to: d,
                                task_id: self.polled_spec()[k],
                                vslot: Ghost(orig.ring_spec().insert_vslot(d)),
                            }),
                        ),
                        None => !self.ring_spec().has_task(self.polled_spec()[k]),
                    } by {
                    if k < self.polled_spec().len() - 1 {
                        assert(self.sleep_log_spec()[k] == log_pre[k]);
                        assert(self.polled_spec()[k] == head.polled_spec()[k]);
                        let pid = head.polled_spec()[k];
                        match head.sleep_log_spec()[k] {
                            Some(d) => {
                                let n = (SleepRingNode {
                                    delay_to: d,
                                    task_id: pid,
                                    vslot: Ghost(orig.ring_spec().insert_vslot(d)),
                                });
                                assert(head.ring_spec().has_node(n));
                                let (p, i2): (int, int) = choose|p: int, i2: int|
                                    0 <= p < head.ring_spec().slots_spec().len()
                                        && 0 <= i2 < head.ring_spec().slots_spec()[p].len()
                                        && (#[trigger] head.ring_spec().slots_spec()[p][i2])
                                            == n;
                                assert(head.ring_spec().slots_spec()[p].is_prefix_of(
                                    self.ring_spec().slots_spec()[p],
                                ));
                                assert(self.ring_spec().slots_spec()[p][i2] == n);
                                assert(self.ring_spec().has_node(n));
                            }
                            None => {
                                assert(!head.ring_spec().has_task(pid));
                                // The polled ids of one drain are queue
                                // entries, pairwise distinct.
                                assert(pid == orig.queue_spec()[
                                    k - orig.polled_spec().len()
                                ]);
                                assert(pid != id);
                                if self.ring_spec().has_task(pid) {
                                    assert(head.ring_spec().has_task(pid)
                                        || pid == id);
                                }
                            }
                        }
                    } else {
                        match req {
                            Some(_d) => {
                            }
                            None => {
                                assert(self.ring_spec() == head.ring_spec());
                                assert(!head.ring_spec().has_task(id));
                            }
                        }
                    }
                }
                i = i + 1;
                assert(orig.queue_spec().subrange(0, i).drop_last()
                    =~= orig.queue_spec().subrange(0, i - 1));
                assert(self.polled_spec() =~= orig.polled_spec()
                    + orig.queue_spec().subrange(0, i));
                assert forall|k: int| 0 <= k < completed@.len()
                    implies orig.queue_spec().subrange(0, i).contains(
                        #[trigger] completed@[k],
                    ) by {
                    if completed@[k] == id {
                        assert(orig.queue_spec().subrange(0, i)[i - 1] == id);
                    } else {
                        assert(orig.queue_spec().subrange(0, i - 1).contains(
                            completed@[k],
                        ));
                        let w = choose|w: int|
                            0 <= w < i - 1
                                && (#[trigger] orig.queue_spec().subrange(
                                0,
                                i - 1,
                            )[w]) == completed@[k];
                        assert(orig.queue_spec().subrange(0, i)[w]
                            == completed@[k]);
                    }
                }
                assert forall|k1: int, k2: int| #![trigger completed@[k1], completed@[k2]]
                    0 <= k1 < k2 < completed@.len()
                    implies occur_in_order(
                        completed@[k1],
                        completed@[k2],
                        orig.queue_spec(),
                    ) by {
                    if fin && k2 == completed@.len() - 1 {
                        assert(completed@[k1] == cprev[k1]);
                        assert(orig.queue_spec().subrange(0, i - 1).contains(
                            cprev[k1],
                        ));
                        let j = choose|j: int|
                            0 <= j < i - 1
                                && (#[trigger] orig.queue_spec().subrange(
                                0,
                                i - 1,
                            )[j]) == cprev[k1];
                        assert(orig.queue_spec()[j] == completed@[k1]);
                        assert(orig.queue_spec()[i - 1] == completed@[k2]);
                        assert(0 <= j < i - 1 < orig.queue_spec().len());
                    } else {
                        assert(completed@[k1] == cprev[k1]
                            && completed@[k2] == cprev[k2]);
                        assert(occur_in_order(cprev[k1], cprev[k2], orig.queue_spec()));
                    }
                }
                assert forall|x: u64| #[trigger] self.ring_spec().has_task(x)
                    implies orig.ring_spec().has_task(x)
                        || orig.queue_spec().subrange(0, i).contains(x) by {
                    if x == id {
                        assert(orig.queue_spec().subrange(0, i)[i - 1] == id);
                    } else if !orig.ring_spec().has_task(x) {
                        assert(orig.queue_spec().subrange(0, i - 1).contains(x));
                        let w = choose|w: int|
                            0 <= w < i - 1
                                && (#[trigger] orig.queue_spec().subrange(
                                0,
                                i - 1,
                            )[w]) == x;
                        assert(orig.queue_spec().subrange(0, i)[w] == x);
                    }
                }
            }
        }
        proof {
            assert(orig.queue_spec().subrange(0, i) =~= orig.queue_spec());
            assert(orig.queue_spec().subrange(i, qlen).len() == 0);
            assert forall|k: int| 0 <= k < completed@.len()
                implies orig.queue_spec().contains(#[trigger] completed@[k]) by {
                assert(orig.queue_spec().subrange(0, i).contains(completed@[k]));
            }
        }
        completed
    }
}

/// After registering one task, exactly the old ids and the new one are
/// live.
proof fn lemma_contains_after_push<C>(
    pre: SchedTaskMng<C>,
    post: SchedTaskMng<C>,
    id: u64,
)
    requires
        pre.wf(),
        post.gen_spec() == id + 1,
        id >= pre.gen_spec(),
        exists|t: SchedTask<C>| post.tasks_spec()
            == pre.tasks_spec().push((#[trigger] t.with_id(id))),
    ensures
        forall|x: u64| post.contains_spec(x)
            <==> (pre.contains_spec(x) || x == id),
{
    broadcast use crate::task::lemma_with_id;

    let t = choose|t: SchedTask<C>| post.tasks_spec()
        == pre.tasks_spec().push((#[trigger] t.with_id(id)));
    assert forall|x: u64| post.contains_spec(x)
        implies (pre.contains_spec(x) || x == id) by {
        let k = choose|k: int| 0 <= k < post.tasks_spec().len()
            && post.tasks_spec()[k].id_spec() == x;
        if k < pre.tasks_spec().len() {
            assert(post.tasks_spec()[k] == pre.tasks_spec()[k]);
        } else {
            assert(post.tasks_spec()[k] == t.with_id(id));
        }
    }
    assert forall|x: u64| (pre.contains_spec(x) || x == id)
        implies post.contains_spec(x) by {
        if x == id {
            let k = post.tasks_spec().len() - 1;
            assert(post.tasks_spec()[k] == t.with_id(id));
            assert(post.tasks_spec()[k].id_spec() == x);
        } else {
            let k = choose|k: int| 0 <= k < pre.tasks_spec().len()
                && pre.tasks_spec()[k].id_spec() == x;
            assert(post.tasks_spec()[k] == pre.tasks_spec()[k]);
        }
    }
}

impl<C: Pollable> Scheduler<C> {
    /// Refreshes virtual time and harvests the timer wheel: every parked
    /// task whose deadline has elapsed is appended, ready again, at the
    /// back of the run queue, so long-sleeping tasks do not overtake
    /// newly-ready ones. The wheel's law carries over: nothing is woken
    /// early, nothing due within the walked slots is left sleeping,
    /// nothing is lost or woken twice.
    #[verifier::rlimit(50)]
    pub fn harvest_timers(&mut self) -> (woken: Vec<u64>)
        requires
            old(self).wf(),
        ensures
            final(self).wf(),
            final(self).time_spec() >= old(self).time_spec(),
            final(self).mng_spec() == old(self).mng_spec(),
            final(self).polled_spec() == old(self).polled_spec(),
            final(self).sleep_log_spec() == old(self).sleep_log_spec(),
            final(self).queue_spec() == old(self).queue_spec() + woken@,
            final(self).ring_spec().dur_spec() == old(self).ring_spec().dur_spec(),
            final(self).ring_spec().size_spec() == old(self).ring_spec().size_spec(),
            final(self).ring_spec().cursor_spec() == cursor_after(
                old(self).ring_spec().cursor_spec(),
                harvest_hi(old(self).ring_spec(), final(self).time_spec()),
            ),
            harvested_state(
                old(self).ring_spec(),
                final(self).ring_spec(),
                harvest_hi(old(self).ring_spec(), final(self).time_spec()),
                final(self).time_spec(),
            ),
            result_sound(old(self).ring_spec(), woken@, final(self).time_spec()),
            result_complete(
                old(self).ring_spec(),
                woken@,
                final(self).time_spec() / old(self).ring_spec().dur_spec(),
                final(self).time_spec(),
            ),
            none_lost(old(self).ring_spec(), final(self).ring_spec(), woken@),
            removed_from(final(self).ring_spec(), woken@),
            distinct_seq(woken@),
    {
        let now = self.refresh_time();
        let ghost ring0 = self.ring_spec();
        let ghost q0 = self.queue_spec();
        let woken = self.task_sleep_ring.get_tasks(now);
        proof {
            lemma_harvested_subset(
                ring0,
                self.ring_spec(),
                harvest_hi(ring0, now),
                now,
            );
            // Every woken id was parked, so it is live and was not queued.
            assert forall|k: int| 0 <= k < woken@.len()
                implies ring0.has_task(#[trigger] woken@[k]) by {
                let (p, i): (int, int) = choose|p: int, i: int|
                    0 <= p < ring0.slots_spec().len()
                        && 0 <= i < ring0.slots_spec()[p].len()
                        && (#[trigger] ring0.slots_spec()[p][i]).task_id
                            == woken@[k]
                        && ring0.slots_spec()[p][i].delay_to <= now;
            }
        }
        let ghost mid = *self;
        let nlen = woken.len();
        let mut j: usize = 0;
        while j < nlen
            invariant
                0 <= j <= nlen,
                nlen == woken@.len(),
                self.queue_spec() == q0 + woken@.subrange(0, j as int),
                self.mng_spec() == mid.mng_spec(),
                self.ring_spec() == mid.ring_spec(),
                self.clock_spec() == mid.clock_spec(),
                self.time_spec() == mid.time_spec(),
                self.polled_spec() == mid.polled_spec(),
                self.sleep_log_spec() == mid.sleep_log_spec(),
                self.ctx_spec() == mid.ctx_spec(),
            decreases nlen - j,
        {
            let id = woken[j];
            self.task_run_queue.push_one_task(id);
            j = j + 1;
            proof {
                assert(woken@.subrange(0, j as int).drop_last()
                    =~= woken@.subrange(0, j - 1 as int));
                assert(self.queue_spec()
                    =~= q0 + woken@.subrange(0, j as int));
            }
        }
        proof {
            assert(woken@.subrange(0, nlen as int) =~= woken@);
            let rngf = self.ring_spec();
            // The grown queue still holds each live id once, none parked.
            assert forall|k: int| 0 <= k < self.queue_spec().len()
                implies self.mng_spec().contains_spec(
                    #[trigger] self.queue_spec()[k],
                ) by {
                if k < q0.len() {
                    assert(self.queue_spec()[k] == q0[k]);
                } else {
                    assert(self.queue_spec()[k] == woken@[k - q0.len()]);
                    assert(ring0.has_task(woken@[k - q0.len()]));
                }
            }
            assert forall|k1: int, k2: int|
                0 <= k1 < k2 < self.queue_spec().len()
                implies (#[trigger] self.queue_spec()[k1])
                    != (#[trigger] self.queue_spec()[k2]) by {
                if k1 < q0.len() && k2 >= q0.len() {
                    assert(self.queue_spec()[k1] == q0[k1]);
                    assert(self.queue_spec()[k2] == woken@[k2 - q0.len()]);
                    assert(!ring0.has_task(q0[k1]));
                    assert(ring0.has_task(woken@[k2 - q0.len()]));
                } else if k2 < q0.len() {
                    assert(self.queue_spec()[k1] == q0[k1]);
                    assert(self.queue_spec()[k2] == q0[k2]);
                } else {
                    assert(self.queue_spec()[k1] == woken@[k1 - q0.len()]);
                    assert(self.queue_spec()[k2] == woken@[k2 - q0.len()]);
                }
            }
            assert forall|k: int| 0 <= k < self.queue_spec().len()
                implies !self.ring_spec().has_task(
                    #[trigger] self.queue_spec()[k],
                ) by {
                if k < q0.len() {
                    assert(self.queue_spec()[k] == q0[k]);
                    assert(!ring0.has_task(q0[k]));
                    if self.ring_spec().has_task(q0[k]) {
                        assert(ring0.has_task(q0[k]));
                    }
                } else {
                    assert(self.queue_spec()[k] == woken@[k - q0.len()]);
                }
            }
        }
        woken
    }

    /// Whether this message registers a new task: a new-task command
    /// carrying a computation, with id space left.
    pub open spec fn msg_registers(&self, msg: Option<SchedMsg<C>>) -> bool {
        match msg {
            Some(m) => m.cmd_spec() == SchedCmd::NewTask && m.task_spec() is Some
                && self.mng_spec().gen_spec() < u64::MAX,
            None => false,
        }
    }

    /// The ready queue once the message has been consumed: the old queue,
    /// plus the freshly registered task at the back if the message
    /// registered one.
    pub open spec fn queue_after_message(&self, msg: Option<SchedMsg<C>>) -> Seq<u64> {
        if self.msg_registers(msg) {
            self.queue_spec().push(self.mng_spec().gen_spec())
        } else {
            self.queue_spec()
        }
    }

    /// One body of the worker's run loop: consume at most one control
    /// message, drain the ready queue, harvest the timer wheel. Returns
    /// whether the loop goes on and the ids of the tasks that completed.
    /// A quit message stops the worker at once, leaving every queued and
    /// sleeping task behind, unpolled.
    pub fn step(&mut self, msg: Option<SchedMsg<C>>) -> (r: (StepOutcome, Vec<u64>))
        requires
            old(self).wf(),
        ensures
            final(self).wf(),
            r.0 == StepOutcome::Stopped <==> (match msg {
                Some(m) => m.cmd_spec() == SchedCmd::Quit,
                None => false,
            }),
            r.0 == StepOutcome::Stopped ==> final(self).mng_spec()
                == old(self).mng_spec() && final(self).queue_spec()
                == old(self).queue_spec() && final(self).ring_spec()
                == old(self).ring_spec() && final(self).time_spec()
                == old(self).time_spec() && final(self).polled_spec()
                == old(self).polled_spec() && final(self).sleep_log_spec()
                == old(self).sleep_log_spec() && r.1@.len() == 0,
            final(self).time_spec() >= old(self).time_spec(),
            r.0 == StepOutcome::Continue ==> ({
                let reg = old(self).msg_registers(msg);
                let new_id = old(self).mng_spec().gen_spec();
                let q1 = old(self).queue_after_message(msg);
                // The message step: a well-formed new-task message
                // registers exactly one task, under the next fresh id.
                &&& final(self).mng_spec().gen_spec() == if reg {
                    (new_id + 1) as u64
                } else {
                    new_id
                }
                &&& final(self).mng_spec().assigned_spec() == if reg {
                    old(self).mng_spec().assigned_spec().push(new_id)
                } else {
                    old(self).mng_spec().assigned_spec()
                }
                // The drain: everything ready after the message step --
                // the freshly registered task included -- is polled in
                // this very step, in queue order.
                &&& final(self).polled_spec() == old(self).polled_spec() + q1
                &&& old(self).sleep_log_spec().is_prefix_of(
                    final(self).sleep_log_spec(),
                )
                // Completions: drawn from what was polled, in poll order,
                // each leaving the table exactly once.
                &&& distinct_seq(r.1@)
                &&& forall|k: int| 0 <= k < r.1@.len()
                    ==> q1.contains(#[trigger] r.1@[k])
                &&& pairs_in_order(r.1@, q1)
                &&& forall|x: u64| #[trigger] final(self).mng_spec().contains_spec(x)
                    <==> ((old(self).mng_spec().contains_spec(x)
                        || (reg && x == new_id)) && !r.1@.contains(x))
                // The wheel parks only tasks that were polled this step.
                &&& forall|id: u64| #[trigger] final(self).ring_spec().has_task(id)
                    ==> old(self).ring_spec().has_task(id) || q1.contains(id)
                // The harvest: the queue left behind holds only tasks
                // polled this step or woken because a parked deadline had
                // elapsed -- nothing wakes early ...
                &&& forall|k: int| 0 <= k < final(self).queue_spec().len()
                    ==> q1.contains(#[trigger] final(self).queue_spec()[k])
                        || due_node_with_id(
                        old(self).ring_spec(),
                        final(self).queue_spec()[k],
                        final(self).time_spec(),
                    )
                // ... and nothing late: every task parked before this
                // step whose deadline has elapsed and whose slot the walk
                // passed is ready again now.
                &&& result_complete(
                    old(self).ring_spec(),
                    final(self).queue_spec(),
                    final(self).time_spec() / old(self).ring_spec().dur_spec(),
                    final(self).time_spec(),
                )
                // The wheel's cursor advances to the refreshed time's slot.
                &&& final(self).ring_spec().dur_spec()
                    == old(self).ring_spec().dur_spec()
                &&& final(self).ring_spec().size_spec()
                    == old(self).ring_spec().size_spec()
                &&& final(self).ring_spec().cursor_spec() == cursor_after(
                    old(self).ring_spec().cursor_spec(),
                    harvest_hi(old(self).ring_spec(), final(self).time_spec()),
                )
            }),
    {
        let outcome0 = match msg {
            Some(m) => self.handle_message(m),
            None => StepOutcome::Continue,
        };
        match outcome0 {
            StepOutcome::Stopped => {
                return (StepOutcome::Stopped, Vec::new());
            }
            StepOutcome::Continue => {}
        }
        let ghost m1 = *self;
        proof {
            assert(m1.queue_spec() == old(self).queue_after_message(msg));
            assert(m1.mng_spec().gen_spec() == if old(self).msg_registers(msg) {
                (old(self).mng_spec().gen_spec() + 1) as u64
            } else {
                old(self).mng_spec().gen_spec()
            });
            assert forall|x: u64| #[trigger] m1.mng_spec().contains_spec(x)
                <==> (old(self).mng_spec().contains_spec(x)
                    || (old(self).msg_registers(msg)
                        && x == old(self).mng_spec().gen_spec())) by {
                if !old(self).msg_registers(msg) {
                    assert(m1.mng_spec().tasks_spec()
                        == old(self).mng_spec().tasks_spec());
                }
            }
        }
        let completed = self.poll_ready_tasks();
        let ghost m2 = *self;
        let woken = self.harvest_timers();
        proof {
            let ghost orig = *old(self);
            let ghost q1 = orig.queue_after_message(msg);
            let ghost t = self.time_spec();
            assert(self.queue_spec() =~= woken@);
            lemma_harvested_subset(
                m2.ring_spec(),
                self.ring_spec(),
                harvest_hi(m2.ring_spec(), t),
                t,
            );
            // The table holds the old tasks plus the registered one,
            // minus the completed ones.
            assert forall|x: u64| #[trigger] self.mng_spec().contains_spec(x)
                <==> ((orig.mng_spec().contains_spec(x)
                    || (orig.msg_registers(msg)
                        && x == orig.mng_spec().gen_spec()))
                    && !completed@.contains(x)) by {
                let c1 = m1.mng_spec().contains_spec(x);
                let c2 = m2.mng_spec().contains_spec(x);
                let c0 = orig.mng_spec().contains_spec(x);
            }
            // The wheel parks only polled tasks.
            assert forall|id: u64| #[trigger] self.ring_spec().has_task(id)
                implies orig.ring_spec().has_task(id) || q1.contains(id) by {
                assert(m2.ring_spec().has_task(id));
            }
            // Nothing wakes early: each woken task had a due node, which
            // the drain preserved from before the step unless the task
            // itself was polled.
            assert forall|k: int| 0 <= k < self.queue_spec().len()
                implies q1.contains(#[trigger] self.queue_spec()[k])
                    || due_node_with_id(orig.ring_spec(), self.queue_spec()[k], t) by {
                let id = self.queue_spec()[k];
                assert(woken@[k] == id);
                assert(due_node_with_id(m2.ring_spec(), id, t));
                let (p, i): (int, int) = choose|p: int, i: int|
                    0 <= p < m2.ring_spec().slots_spec().len()
                        && 0 <= i < m2.ring_spec().slots_spec()[p].len()
                        && (#[trigger] m2.ring_spec().slots_spec()[p][i]).task_id
                            == id
                        && m2.ring_spec().slots_spec()[p][i].delay_to <= t;
                if i < m1.ring_spec().slots_spec()[p].len() {
                    assert(m1.ring_spec().slots_spec()[p].is_prefix_of(
                        m2.ring_spec().slots_spec()[p],
                    ));
                    assert(m2.ring_spec().slots_spec()[p][i]
                        == m1.ring_spec().slots_spec()[p][i]);
                    assert(orig.ring_spec().slots_spec()[p][i].task_id == id
                        && orig.ring_spec().slots_spec()[p][i].delay_to <= t);
                } else {
                    assert(m1.queue_spec().contains(id));
                }
            }
            // Nothing wakes late: a node parked before the step survives
            // the drain in place, so the harvest's completeness applies
            // to it.
            assert forall|p: int, i: int|
                0 <= p < orig.ring_spec().slots_spec().len()
                    && 0 <= i < orig.ring_spec().slots_spec()[p].len()
                    && (#[trigger] orig.ring_spec().slots_spec()[p][i]).vslot@
                        < t / orig.ring_spec().dur_spec()
                    && orig.ring_spec().slots_spec()[p][i].delay_to <= t
                implies self.queue_spec().contains(
                    orig.ring_spec().slots_spec()[p][i].task_id,
                ) by {
                let n = orig.ring_spec().slots_spec()[p][i];
                assert(m1.ring_spec().slots_spec()[p].is_prefix_of(
                    m2.ring_spec().slots_spec()[p],
                ));
                assert(m2.ring_spec().slots_spec()[p][i] == n);
                assert(woken@.contains(n.task_id));
                let w = choose|w: int| 0 <= w < woken@.len() && woken@[w] == n.task_id;
                assert(self.queue_spec()[w] == n.task_id);
            }
            // The cursor advance, stated over the wheel as it was before
            // the step.
            assert(harvest_hi(m2.ring_spec(), t) == harvest_hi(orig.ring_spec(), t));
            assert forall|k: int| 0 <= k < completed@.len()
                implies !self.mng_spec().contains_spec(
                    #[trigger] completed@[k],
                ) by {
                assert(completed@.contains(completed@[k]));
                assert(!m2.mng_spec().contains_spec(completed@[k]));
            }
        }
        (StepOutcome::Continue, completed)
    }
}

/// Prefixes compose.
proof fn lemma_prefix_trans<A>(a: Seq<A>, b: Seq<A>, c: Seq<A>)
    requires
        a.is_prefix_of(b),
        b.is_prefix_of(c),
    ensures
        a.is_prefix_of(c),
{
    assert(a =~= c.subrange(0, a.len() as int));
}

/// Removing the task at index `k` removes exactly its id from the live
/// set.
proof fn lemma_contains_after_remove<C>(
    pre: SchedTaskMng<C>,
    post: SchedTaskMng<C>,
    k: int,
    id: u64,
)
    requires
        pre.wf(),
        0 <= k < pre.tasks_spec().len(),
        pre.tasks_spec()[k].id_spec() == id,
        post.tasks_spec() == pre.tasks_spec().remove(k),
    ensures
        forall|x: u64| #[trigger] post.contains_spec(x)
            <==> (pre.contains_spec(x) && x != id),
{
    assert forall|x: u64| #[trigger] post.contains_spec(x)
        implies (pre.contains_spec(x) && x != id) by {
        let j = choose|j: int| 0 <= j < post.tasks_spec().len()
            && post.tasks_spec()[j].id_spec() == x;
        let j2: int = if j < k { j } else { j + 1 };
        assert(post.tasks_spec()[j] == pre.tasks_spec()[j2]);
        assert(pre.tasks_spec()[j2].id_spec() == x);
        if x == id {
            assert(pre.tasks_spec()[j2].id_spec() == pre.tasks_spec()[k].id_spec());
            assert(j2 != k);
            assert(false);
        }
    }
    assert forall|x: u64| (pre.contains_spec(x) && x != id)
        implies #[trigger] post.contains_spec(x) by {
        let j = choose|j: int| 0 <= j < pre.tasks_spec().len()
            && pre.tasks_spec()[j].id_spec() == x;
        assert(j != k);
        let j2: int = if j < k { j } else { j - 1 };
        assert(post.tasks_spec()[j2] == pre.tasks_spec()[j]);
    }
}

/// Putting a task back adds exactly its id to the live set.
proof fn lemma_contains_after_reinsert<C>(
    pre: SchedTaskMng<C>,
    post: SchedTaskMng<C>,
    t: SchedTask<C>,
)
    requires
        post.tasks_spec() == pre.tasks_spec().push(t),
    ensures
        forall|x: u64| #[trigger] post.contains_spec(x)
            <==> (pre.contains_spec(x) || x == t.id_spec()),
{
    assert forall|x: u64| #[trigger] post.contains_spec(x)
        implies (pre.contains_spec(x) || x == t.id_spec()) by {
        let j = choose|j: int| 0 <= j < post.tasks_spec().len()
            && post.tasks_spec()[j].id_spec() == x;
        if j < pre.tasks_spec().len() {
            assert(post.tasks_spec()[j] == pre.tasks_spec()[j]);
        } else {
            assert(post.tasks_spec()[j] == t);
        }
    }
    assert forall|x: u64| (pre.contains_spec(x) || x == t.id_spec())
        implies #[trigger] post.contains_spec(x) by {
        if x == t.id_spec() {
            assert(post.tasks_spec()[pre.tasks_spec().len() as int] == t);
        } else {
            let j = choose|j: int| 0 <= j < pre.tasks_spec().len()
                && pre.tasks_spec()[j].id_spec() == x;
            assert(post.tasks_spec()[j] == pre.tasks_spec()[j]);
        }
    }
}

} // verus!
