//! The timer wheel: a fixed ring of slots, each holding the wake-up
//! deadlines filed under it. Deadlines are filed at slot `deadline /
//! slot-duration`, clamped up to the executed-slot cursor so that a
//! deadline already in the past relative to the cursor is harvested on the
//! very next scan instead of being lost for a whole ring revolution. The
//! harvest walks the cursor forward to the current slot, draining every
//! entry whose deadline has elapsed and leaving the rest in place.

use std::collections::VecDeque;
use vstd::prelude::*;

verus! {

/// One parked deadline: wake the task `task_id` once virtual time reaches
/// `delay_to`. The ghost `vslot` records the unwrapped (virtual) slot
/// index the node was filed under.
pub struct SleepRingNode {
    pub delay_to: u64,
    pub task_id: u64,
    pub vslot: Ghost<u64>,
}

impl SleepRingNode {
    /// A free-standing node, not yet filed under any slot.
    pub fn new(delay_to: u64, task_id: u64) -> (n: SleepRingNode)
        ensures
            n.delay_to == delay_to,
            n.task_id == task_id,
    {
        SleepRingNode { delay_to, task_id, vslot: Ghost(0) }
    }
}

/// One slot's bucket of parked nodes.
pub struct SlotVec {
    bucket: VecDeque<SleepRingNode>,
}

impl View for SlotVec {
    type V = Seq<SleepRingNode>;

    closed spec fn view(&self) -> Seq<SleepRingNode> {
        self.bucket@
    }
}

/// The nodes of `s` that are due at `t`.
pub open spec fn due_part(s: Seq<SleepRingNode>, t: u64) -> Seq<SleepRingNode> {
    s.filter(|n: SleepRingNode| n.delay_to <= t)
}

/// The nodes of `s` that are not yet due at `t`.
pub open spec fn pending_part(s: Seq<SleepRingNode>, t: u64) -> Seq<SleepRingNode> {
    s.filter(|n: SleepRingNode| n.delay_to > t)
}

impl SlotVec {
    pub fn new() -> (s: SlotVec)
        ensures
            s@ == Seq::<SleepRingNode>::empty(),
    {
        SlotVec { bucket: VecDeque::new() }
    }

    pub fn push_node(&mut self, node: SleepRingNode)
        ensures
            final(self)@ == old(self)@.push(node),
    {
        self.bucket.push_back(node);
    }

    pub fn pop_node(&mut self) -> (r: Option<SleepRingNode>)
        ensures
            old(self)@.len() == 0 ==> r is None && final(self)@ == old(self)@,
            old(self)@.len() > 0 ==> r == Some(old(self)@[0])
                && final(self)@ == old(self)@.drop_first(),
    {
        self.bucket.pop_front()
    }

    pub fn pop_all(&mut self) -> (r: Vec<SleepRingNode>)
        ensures
            r@ == old(self)@,
            final(self)@ == Seq::<SleepRingNode>::empty(),
    {
        let mut out: Vec<SleepRingNode> = Vec::new();
        loop
            invariant
                old(self)@ == out@ + self@,
            decreases self@.len(),
        {
            match self.bucket.pop_front() {
                None => {
                    proof {
                        assert(out@ =~= old(self)@);
                    }
                    return out;
                }
                Some(n) => {
                    out.push(n);
                    proof {
                        assert(old(self)@ =~= out@ + self@);
                    }
                }
            }
        }
    }

    /// Drains the nodes due at `curr_time_usec` out of the bucket, in
    /// order, leaving the not-yet-due nodes in place, in order.
    pub fn pop_before_time(&mut self, curr_time_usec: u64) -> (r: Vec<SleepRingNode>)
        ensures
            r@ == due_part(old(self)@, curr_time_usec),
            final(self)@ == pending_part(old(self)@, curr_time_usec),
    {
        let ghost orig = self@;
        let mut ready: Vec<SleepRingNode> = Vec::new();
        let mut remaining: VecDeque<SleepRingNode> = VecDeque::new();
        let ghost i: int = 0;
        while self.bucket.len() > 0
            invariant
                0 <= i <= orig.len(),
                self@ == orig.subrange(i, orig.len() as int),
                ready@ == due_part(orig.subrange(0, i), curr_time_usec),
                remaining@ == pending_part(orig.subrange(0, i), curr_time_usec),
            decreases orig.len() - i,
        {
            let node = match self.bucket.pop_front() {
                Some(n) => n,
                None => vstd::pervasive::unreached(),
            };
            proof {
                assert(orig.subrange(0, i + 1).drop_last()
                    =~= orig.subrange(0, i));
                assert(orig.subrange(0, i + 1).last() == node);
                reveal_with_fuel(Seq::filter, 2);
            }
            if node.delay_to <= curr_time_usec {
                ready.push(node);
            } else {
                remaining.push_back(node);
            }
            proof {
                i = i + 1;
                assert(self@ =~= orig.subrange(i, orig.len() as int));
            }
        }
        proof {
            assert(orig.subrange(0, i) =~= orig);
        }
        self.bucket = remaining;
        ready
    }
}

/// Whether the harvest walk from `c0` (inclusive) to `exe` (exclusive)
/// visits the physical slot `p` of a ring with `size` slots.
pub open spec fn scanned(c0: u64, exe: u64, size: u64, p: int) -> bool {
    exists|e: u64| c0 <= e < exe && ((#[trigger] (e % size)) as int) == p
}

/// The bucketed ring of pending wake-up deadlines.
pub struct SchedSleepRing {
    slot_dur: u64,
    exec_slot_idx: u64,
    max_slot_size: u64,
    slots: Vec<SlotVec>,
}

impl SchedSleepRing {
    pub closed spec fn dur_spec(&self) -> u64 {
        self.slot_dur
    }

    /// The executed-slot cursor: the virtual slot index the harvest has
    /// advanced to. It never moves backward.
    pub closed spec fn cursor_spec(&self) -> u64 {
        self.exec_slot_idx
    }

    pub closed spec fn size_spec(&self) -> u64 {
        self.max_slot_size
    }

    /// The ring's contents, one node sequence per physical slot.
    pub closed spec fn slots_spec(&self) -> Seq<Seq<SleepRingNode>> {
        self.slots@.map(|p: int, s: SlotVec| s@)
    }

    /// A node filed in physical slot `p` carries a virtual slot index that
    /// wraps to `p`, lies at or past the cursor, and is no earlier than
    /// the slot its deadline belongs to.
    pub open spec fn node_ok(&self, n: SleepRingNode, p: int) -> bool {
        &&& ((n.vslot@ % self.size_spec()) as int) == p
        &&& n.vslot@ >= self.cursor_spec()
        &&& n.delay_to / self.dur_spec() <= n.vslot@
    }

    pub open spec fn wf(&self) -> bool {
        &&& self.dur_spec() > 0
        &&& self.size_spec() > 0
        &&& self.slots_spec().len() == self.size_spec()
        &&& forall|p: int, i: int|
            0 <= p < self.slots_spec().len()
                && 0 <= i < self.slots_spec()[p].len()
            ==> self.node_ok(#[trigger] self.slots_spec()[p][i], p)
    }

    /// Whether this exact node is parked.
    pub open spec fn has_node(&self, n: SleepRingNode) -> bool {
        exists|p: int, i: int|
            0 <= p < self.slots_spec().len()
                && 0 <= i < self.slots_spec()[p].len()
                && (#[trigger] self.slots_spec()[p][i]) == n
    }

    /// Whether some parked node wakes the given task.
    pub open spec fn has_task(&self, id: u64) -> bool {
        exists|p: int, i: int|
            0 <= p < self.slots_spec().len()
                && 0 <= i < self.slots_spec()[p].len()
                && (#[trigger] self.slots_spec()[p][i]).task_id == id
    }

    /// No two parked nodes wake the same task.
    pub open spec fn ids_distinct(&self) -> bool {
        forall|p1: int, i1: int, p2: int, i2: int|
            0 <= p1 < self.slots_spec().len()
                && 0 <= i1 < self.slots_spec()[p1].len()
                && 0 <= p2 < self.slots_spec().len()
                && 0 <= i2 < self.slots_spec()[p2].len()
                && (p1 != p2 || i1 != i2)
            ==> (#[trigger] self.slots_spec()[p1][i1]).task_id
                != (#[trigger] self.slots_spec()[p2][i2]).task_id
    }

    /// A ring of `n` slots, each a hundred microseconds wide, with the
    /// cursor at the start.
    pub fn new(n: usize) -> (ring: SchedSleepRing)
        requires
            n >= 1,
        ensures
            ring.wf(),
            ring.ids_distinct(),
            ring.dur_spec() == 100,
            ring.cursor_spec() == 0,
            ring.size_spec() == n,
            forall|p: int| 0 <= p < n
                ==> (#[trigger] ring.slots_spec()[p]).len() == 0,
    {
        let mut slots: Vec<SlotVec> = Vec::new();
        let mut k: usize = 0;
        while k < n
            invariant
                0 <= k <= n,
                slots@.len() == k,
                forall|p: int| 0 <= p < k
                    ==> (#[trigger] slots@[p])@.len() == 0,
            decreases n - k,
        {
            slots.push(SlotVec::new());
            k = k + 1;
        }
        SchedSleepRing {
            slot_dur: 100,
            exec_slot_idx: 0,
            max_slot_size: n as u64,
            slots,
        }
    }

    /// The virtual slot a deadline is filed under: its own slot, clamped
    /// up to the cursor.
    pub open spec fn insert_vslot(&self, delay_to: u64) -> u64 {
        if delay_to / self.dur_spec() >= self.cursor_spec() {
            delay_to / self.dur_spec()
        } else {
            self.cursor_spec()
        }
    }

    /// Parks a wake-up for `task_id` at the deadline `delay_to`.
    pub fn add_task_node(&mut self, delay_to: u64, task_id: u64)
        requires
            old(self).wf(),
        ensures
            final(self).wf(),
            final(self).dur_spec() == old(self).dur_spec(),
            final(self).size_spec() == old(self).size_spec(),
            final(self).cursor_spec() == old(self).cursor_spec(),
            ({
                let v = old(self).insert_vslot(delay_to);
                let p = (v % old(self).size_spec()) as int;
                final(self).slots_spec() == old(self).slots_spec().update(
                    p,
                    old(self).slots_spec()[p].push(
                        (SleepRingNode { delay_to, task_id, vslot: Ghost(v) }),
                    ),
                )
            }),
    {
        let mut slot_insert_idx = delay_to / self.slot_dur;
        let exec_slot_idx = self.exec_slot_idx;
        if slot_insert_idx < exec_slot_idx {
            slot_insert_idx = exec_slot_idx;
        }
        let node = SleepRingNode {
            delay_to,
            task_id,
            vslot: Ghost(slot_insert_idx),
        };
        let insert_idx = slot_insert_idx % self.max_slot_size;
        let nslots = self.slots.len();
        proof {
            assert(self.slots_spec().len() == self.slots@.len());
            assert(insert_idx < nslots as u64);
        }
        let ghost pre = *self;
        let slot_ref = &mut self.slots[insert_idx as usize];
        slot_ref.push_node(node);
        proof {
            let p = insert_idx as int;
            assert(self.slots_spec() =~~= pre.slots_spec().update(
                p,
                pre.slots_spec()[p].push(node),
            ));
            assert forall|q: int, i: int|
                0 <= q < self.slots_spec().len()
                    && 0 <= i < self.slots_spec()[q].len()
                implies self.node_ok(#[trigger] self.slots_spec()[q][i], q) by {
                if q == p && i == self.slots_spec()[q].len() - 1 {
                    assert(self.slots_spec()[q][i] == node);
                } else {
                    assert(self.slots_spec()[q][i] == pre.slots_spec()[q][i]);
                    assert(pre.node_ok(pre.slots_spec()[q][i], q));
                }
            }
        }
    }

    /// Harvests every parked task whose deadline has elapsed at
    /// `curr_time_usec`, walking the cursor from its current position up
    /// to the slot of the current time. The contract is the wheel's law:
    /// no task is returned before its deadline, whatever slot the ring's
    /// wraparound filed it in; every task filed in a slot the walk passes
    /// whose deadline has elapsed is returned; nothing is lost; nothing is
    /// returned twice or left behind in the ring after being returned.
    #[verifier::rlimit(50)]
    pub fn get_tasks(&mut self, curr_time_usec: u64) -> (r: Vec<u64>)
        requires
            old(self).wf(),
            old(self).ids_distinct(),
        ensures
            final(self).wf(),
            final(self).ids_distinct(),
            final(self).dur_spec() == old(self).dur_spec(),
            final(self).size_spec() == old(self).size_spec(),
            final(self).cursor_spec() == cursor_after(
                old(self).cursor_spec(),
                harvest_hi(*old(self), curr_time_usec),
            ),
            harvested_state(
                *old(self),
                *final(self),
                harvest_hi(*old(self), curr_time_usec),
                curr_time_usec,
            ),
            result_sound(*old(self), r@, curr_time_usec),
            result_complete(
                *old(self),
                r@,
                curr_time_usec / old(self).dur_spec(),
                curr_time_usec,
            ),
            none_lost(*old(self), *final(self), r@),
            removed_from(*final(self), r@),
            distinct_seq(r@),
    {
        let ghost orig = *self;
        let curr_slot_idx = curr_time_usec / self.slot_dur;
        let mut exe_idx = self.exec_slot_idx;
        let ghost c0 = orig.cursor_spec();
        let mut result: Vec<u64> = Vec::new();
        while exe_idx < curr_slot_idx
            invariant
                orig.wf(),
                orig.ids_distinct(),
                self.wf(),
                self.ids_distinct(),
                self.dur_spec() == orig.dur_spec(),
                self.size_spec() == orig.size_spec(),
                curr_slot_idx == curr_time_usec / orig.dur_spec(),
                c0 == orig.cursor_spec(),
                c0 <= exe_idx,
                exe_idx <= harvest_hi(orig, curr_time_usec),
                self.cursor_spec() == cursor_after(c0, exe_idx),
                harvested_state(orig, *self, exe_idx, curr_time_usec),
                result_sound(orig, result@, curr_time_usec),
                result_complete(orig, result@, exe_idx, curr_time_usec),
                none_lost(orig, *self, result@),
                removed_from(*self, result@),
                distinct_seq(result@),
            decreases curr_slot_idx - exe_idx,
        {
            let ghost cur0 = *self;
            let mut nodes = self.get_nodes_from_slot(exe_idx, curr_time_usec);
            let ghost r0 = result@;
            proof {
                assert(r0 + ids_of(nodes@.subrange(0, 0)) =~= r0);
            }
            let nlen = nodes.len();
            let mut j: usize = 0;
            while j < nlen
                invariant
                    0 <= j <= nlen,
                    nlen == nodes@.len(),
                    result@ == r0 + ids_of(nodes@.subrange(0, j as int)),
                decreases nlen - j,
            {
                let id = nodes[j].task_id;
                result.push(id);
                j = j + 1;
                proof {
                    assert(ids_of(nodes@.subrange(0, j as int))
                        =~= ids_of(nodes@.subrange(0, j - 1 as int)).push(id));
                    assert(result@
                        =~= r0 + ids_of(nodes@.subrange(0, j as int)));
                }
            }
            proof {
                assert(nodes@.subrange(0, nlen as int) =~= nodes@);
            }
            self.exec_slot_idx = exe_idx;
            proof {
                lemma_harvest_step(
                    orig,
                    cur0,
                    *self,
                    r0,
                    result@,
                    exe_idx,
                    curr_time_usec,
                );
            }
            exe_idx = exe_idx + 1;
        }
        proof {
            if curr_slot_idx <= c0 {
                assert(exe_idx == c0);
                assert(harvest_hi(orig, curr_time_usec) == c0);
                assert forall|p: int, i: int|
                    0 <= p < orig.slots_spec().len()
                        && 0 <= i < orig.slots_spec()[p].len()
                        && (#[trigger] orig.slots_spec()[p][i]).vslot@
                            < curr_time_usec / orig.dur_spec()
                        && orig.slots_spec()[p][i].delay_to <= curr_time_usec
                    implies result@.contains(orig.slots_spec()[p][i].task_id) by {
                    assert(orig.node_ok(orig.slots_spec()[p][i], p));
                    assert(false);
                }
            } else {
                assert(exe_idx == curr_slot_idx);
                assert(harvest_hi(orig, curr_time_usec) == curr_slot_idx);
            }
        }
        result
    }

    /// Drains the due nodes out of the slot that the walk index `exe_idx`
    /// lands on.
    pub fn get_nodes_from_slot(&mut self, exe_idx: u64, curr_time_usec: u64) -> (r: Vec<
        SleepRingNode,
    >)
        requires
            old(self).wf(),
        ensures
            final(self).wf(),
            final(self).dur_spec() == old(self).dur_spec(),
            final(self).size_spec() == old(self).size_spec(),
            final(self).cursor_spec() == old(self).cursor_spec(),
            ({
                let p = (exe_idx % old(self).size_spec()) as int;
                r@ == due_part(old(self).slots_spec()[p], curr_time_usec)
                    && final(self).slots_spec() == old(self).slots_spec().update(
                    p,
                    pending_part(old(self).slots_spec()[p], curr_time_usec),
                )
            }),
    {
        let real_idx = exe_idx % self.max_slot_size;
        let nslots = self.slots.len();
        proof {
            assert(self.slots_spec().len() == self.slots@.len());
            assert(real_idx < nslots as u64);
        }
        let ghost pre = *self;
        let ghost p = real_idx as int;
        let slot_ref = &mut self.slots[real_idx as usize];
        let r = slot_ref.pop_before_time(curr_time_usec);
        proof {
            assert(self.slots_spec() =~~= pre.slots_spec().update(
                p,
                pending_part(pre.slots_spec()[p], curr_time_usec),
            ));
            lemma_filter_is_subset(
                pre.slots_spec()[p],
                |n: SleepRingNode| n.delay_to > curr_time_usec,
            );
            assert forall|q: int, i: int|
                0 <= q < self.slots_spec().len()
                    && 0 <= i < self.slots_spec()[q].len()
                implies self.node_ok(#[trigger] self.slots_spec()[q][i], q) by {
                if q == p {
                    let n = self.slots_spec()[q][i];
                    assert(pre.slots_spec()[p].contains(n));
                    let j = choose|j: int|
                        0 <= j < pre.slots_spec()[p].len()
                            && pre.slots_spec()[p][j] == n;
                    assert(pre.node_ok(pre.slots_spec()[p][j], p));
                } else {
                    assert(self.slots_spec()[q][i] == pre.slots_spec()[q][i]);
                    assert(pre.node_ok(pre.slots_spec()[q][i], q));
                }
            }
        }
        r
    }
}

/// The task ids of a sequence of nodes, in order.
pub open spec fn ids_of(s: Seq<SleepRingNode>) -> Seq<u64> {
    s.map_values(|n: SleepRingNode| n.task_id)
}

/// No two nodes of the sequence carry the same task id.
pub open spec fn distinct_ids(s: Seq<SleepRingNode>) -> bool {
    forall|i: int, j: int| 0 <= i < j < s.len()
        ==> (#[trigger] s[i]).task_id != (#[trigger] s[j]).task_id
}

/// No value occurs twice in the sequence.
pub open spec fn distinct_seq(r: Seq<u64>) -> bool {
    forall|k1: int, k2: int| 0 <= k1 < k2 < r.len()
        ==> (#[trigger] r[k1]) != (#[trigger] r[k2])
}

/// Where the cursor stands after a harvest walk up to `hi`.
pub open spec fn cursor_after(c0: u64, hi: u64) -> u64 {
    if hi > c0 {
        (hi - 1) as u64
    } else {
        c0
    }
}

/// The virtual slot index a harvest at time `t` walks up to (exclusive).
pub open spec fn harvest_hi(orig: SchedSleepRing, t: u64) -> u64 {
    if t / orig.dur_spec() > orig.cursor_spec() {
        t / orig.dur_spec()
    } else {
        orig.cursor_spec()
    }
}

/// `cur` is `orig` after the harvest walk `[orig's cursor, hi)` at time
/// `t`: every slot the walk visits keeps only its not-yet-due nodes, every
/// other slot is untouched.
pub open spec fn harvested_state(
    orig: SchedSleepRing,
    cur: SchedSleepRing,
    hi: u64,
    t: u64,
) -> bool {
    &&& cur.dur_spec() == orig.dur_spec()
    &&& cur.size_spec() == orig.size_spec()
    &&& cur.slots_spec().len() == orig.slots_spec().len()
    &&& forall|p: int| 0 <= p < orig.slots_spec().len()
        ==> (#[trigger] cur.slots_spec()[p]) == if scanned(
            orig.cursor_spec(),
            hi,
            orig.size_spec(),
            p,
        ) {
            pending_part(orig.slots_spec()[p], t)
        } else {
            orig.slots_spec()[p]
        }
}

/// Some node of `orig` wakes task `id` and is due at `t`.
pub open spec fn due_node_with_id(orig: SchedSleepRing, id: u64, t: u64) -> bool {
    exists|p: int, i: int|
        0 <= p < orig.slots_spec().len()
            && 0 <= i < orig.slots_spec()[p].len()
            && (#[trigger] orig.slots_spec()[p][i]).task_id == id
            && orig.slots_spec()[p][i].delay_to <= t
}

/// Every harvested id belonged to a parked node whose deadline had
/// elapsed: nothing is woken early.
pub open spec fn result_sound(orig: SchedSleepRing, r: Seq<u64>, t: u64) -> bool {
    forall|k: int| 0 <= k < r.len()
        ==> due_node_with_id(orig, #[trigger] r[k], t)
}

/// Every node filed below `hi` whose deadline has elapsed is harvested.
pub open spec fn result_complete(
    orig: SchedSleepRing,
    r: Seq<u64>,
    hi: u64,
    t: u64,
) -> bool {
    forall|p: int, i: int|
        0 <= p < orig.slots_spec().len()
            && 0 <= i < orig.slots_spec()[p].len()
            && (#[trigger] orig.slots_spec()[p][i]).vslot@ < hi
            && orig.slots_spec()[p][i].delay_to <= t
        ==> r.contains(orig.slots_spec()[p][i].task_id)
}

/// Every task parked in `orig` is either harvested or still parked.
pub open spec fn none_lost(orig: SchedSleepRing, cur: SchedSleepRing, r: Seq<u64>) -> bool {
    forall|p: int, i: int|
        0 <= p < orig.slots_spec().len()
            && 0 <= i < orig.slots_spec()[p].len()
        ==> r.contains((#[trigger] orig.slots_spec()[p][i]).task_id)
            || cur.has_task(orig.slots_spec()[p][i].task_id)
}

/// No harvested task is still parked.
pub open spec fn removed_from(cur: SchedSleepRing, r: Seq<u64>) -> bool {
    forall|k: int| 0 <= k < r.len() ==> !cur.has_task(#[trigger] r[k])
}

/// Every element of a filtered sequence is an element of the sequence
/// it was filtered from.
pub proof fn lemma_filter_is_subset(
    s: Seq<SleepRingNode>,
    pred: spec_fn(SleepRingNode) -> bool,
)
    ensures
        forall|i: int| 0 <= i < s.filter(pred).len()
            ==> s.contains(#[trigger] s.filter(pred)[i]),
    decreases s.len(),
{
    reveal_with_fuel(Seq::filter, 2);
    if s.len() > 0 {
        lemma_filter_is_subset(s.drop_last(), pred);
        assert forall|i: int| 0 <= i < s.filter(pred).len()
            implies s.contains(#[trigger] s.filter(pred)[i]) by {
            let f = s.filter(pred);
            let fd = s.drop_last().filter(pred);
            if i < fd.len() {
                assert(fd[i] == f[i]);
                let j = choose|j: int|
                    0 <= j < s.drop_last().len() && s.drop_last()[j] == fd[i];
                assert(s[j] == f[i]);
            } else {
                assert(f[i] == s.last());
                assert(s[s.len() - 1] == f[i]);
            }
        }
    }
}

/// What parking one node does to the wheel's membership: exactly the new
/// task id appears, and distinctness is kept when the id was not parked.
pub proof fn lemma_add_node_effect(
    pre: SchedSleepRing,
    post: SchedSleepRing,
    delay_to: u64,
    task_id: u64,
)
    requires
        pre.wf(),
        post.size_spec() == pre.size_spec(),
        ({
            let v = pre.insert_vslot(delay_to);
            let p = (v % pre.size_spec()) as int;
            post.slots_spec() == pre.slots_spec().update(
                p,
                pre.slots_spec()[p].push(
                    (SleepRingNode { delay_to, task_id, vslot: Ghost(v) }),
                ),
            )
        }),
    ensures
        forall|x: u64| #[trigger] post.has_task(x)
            <==> (pre.has_task(x) || x == task_id),
        pre.ids_distinct() && !pre.has_task(task_id) ==> post.ids_distinct(),
{
    let v = pre.insert_vslot(delay_to);
    let p = (v % pre.size_spec()) as int;
    let node = SleepRingNode { delay_to, task_id, vslot: Ghost(v) };
    assert(0 <= p < pre.slots_spec().len());
    assert forall|x: u64| #[trigger] post.has_task(x)
        implies (pre.has_task(x) || x == task_id) by {
        let (q, i): (int, int) = choose|q: int, i: int|
            0 <= q < post.slots_spec().len()
                && 0 <= i < post.slots_spec()[q].len()
                && (#[trigger] post.slots_spec()[q][i]).task_id == x;
        if q == p && i == post.slots_spec()[q].len() - 1 {
            assert(post.slots_spec()[q][i] == node);
        } else {
            assert(post.slots_spec()[q][i] == pre.slots_spec()[q][i]);
        }
    }
    assert forall|x: u64| (pre.has_task(x) || x == task_id)
        implies #[trigger] post.has_task(x) by {
        if x == task_id {
            let i = post.slots_spec()[p].len() - 1;
            assert(post.slots_spec()[p][i] == node);
        } else {
            let (q, i): (int, int) = choose|q: int, i: int|
                0 <= q < pre.slots_spec().len()
                    && 0 <= i < pre.slots_spec()[q].len()
                    && (#[trigger] pre.slots_spec()[q][i]).task_id == x;
            assert(post.slots_spec()[q][i] == pre.slots_spec()[q][i]);
        }
    }
    if pre.ids_distinct() && !pre.has_task(task_id) {
        assert forall|p1: int, i1: int, p2: int, i2: int|
            0 <= p1 < post.slots_spec().len()
                && 0 <= i1 < post.slots_spec()[p1].len()
                && 0 <= p2 < post.slots_spec().len()
                && 0 <= i2 < post.slots_spec()[p2].len()
                && (p1 != p2 || i1 != i2)
            implies (#[trigger] post.slots_spec()[p1][i1]).task_id
                != (#[trigger] post.slots_spec()[p2][i2]).task_id by {
            let new1 = p1 == p && i1 == post.slots_spec()[p1].len() - 1;
            let new2 = p2 == p && i2 == post.slots_spec()[p2].len() - 1;
            if new1 && !new2 {
                assert(post.slots_spec()[p1][i1] == node);
                assert(post.slots_spec()[p2][i2] == pre.slots_spec()[p2][i2]);
                if pre.slots_spec()[p2][i2].task_id == task_id {
                    assert(pre.has_task(task_id));
                }
            } else if !new1 && new2 {
                assert(post.slots_spec()[p2][i2] == node);
                assert(post.slots_spec()[p1][i1] == pre.slots_spec()[p1][i1]);
                if pre.slots_spec()[p1][i1].task_id == task_id {
                    assert(pre.has_task(task_id));
                }
            } else if !new1 && !new2 {
                assert(post.slots_spec()[p1][i1] == pre.slots_spec()[p1][i1]);
                assert(post.slots_spec()[p2][i2] == pre.slots_spec()[p2][i2]);
            }
        }
    }
}

/// Law: no early wake-up. If every node parked for a task has a deadline
/// still in the future, no harvest that is sound for the current time
/// returns that task, whatever slots the ring's wraparound filed it in.
pub proof fn lemma_no_early_wake(orig: SchedSleepRing, r: Seq<u64>, id: u64, t: u64)
    requires
        result_sound(orig, r, t),
        forall|p: int, i: int|
            0 <= p < orig.slots_spec().len()
                && 0 <= i < orig.slots_spec()[p].len()
                && (#[trigger] orig.slots_spec()[p][i]).task_id == id
            ==> orig.slots_spec()[p][i].delay_to > t,
    ensures
        !r.contains(id),
{
    if r.contains(id) {
        let k = choose|k: int| 0 <= k < r.len() && r[k] == id;
        assert(due_node_with_id(orig, r[k], t));
        let (p, i): (int, int) = choose|p: int, i: int|
            0 <= p < orig.slots_spec().len()
                && 0 <= i < orig.slots_spec()[p].len()
                && (#[trigger] orig.slots_spec()[p][i]).task_id == id
                && orig.slots_spec()[p][i].delay_to <= t;
    }
}

/// Law: timely wake-up. A deadline parked for a task is returned by any
/// complete harvest whose time has both reached the deadline and passed
/// the slot the deadline was filed under.
pub proof fn lemma_timely_wake(
    pre: SchedSleepRing,
    post: SchedSleepRing,
    woken: Seq<u64>,
    delay_to: u64,
    task_id: u64,
    t: u64,
)
    requires
        pre.wf(),
        post.size_spec() == pre.size_spec(),
        post.dur_spec() == pre.dur_spec(),
        ({
            let v = pre.insert_vslot(delay_to);
            let p = (v % pre.size_spec()) as int;
            post.slots_spec() == pre.slots_spec().update(
                p,
                pre.slots_spec()[p].push(
                    (SleepRingNode { delay_to, task_id, vslot: Ghost(v) }),
                ),
            )
        }),
        result_complete(post, woken, t / post.dur_spec(), t),
        delay_to <= t,
        pre.insert_vslot(delay_to) < t / pre.dur_spec(),
    ensures
        woken.contains(task_id),
{
    let v = pre.insert_vslot(delay_to);
    let p = (v % pre.size_spec()) as int;
    let node = SleepRingNode { delay_to, task_id, vslot: Ghost(v) };
    assert(0 <= p < pre.slots_spec().len());
    let i = post.slots_spec()[p].len() - 1;
    assert(post.slots_spec()[p][i] == node);
}

/// After a harvest, no task is parked that was not parked before.
pub proof fn lemma_harvested_subset(
    orig: SchedSleepRing,
    cur: SchedSleepRing,
    hi: u64,
    t: u64,
)
    requires
        harvested_state(orig, cur, hi, t),
    ensures
        forall|id: u64| #[trigger] cur.has_task(id) ==> orig.has_task(id),
{
    assert forall|id: u64| #[trigger] cur.has_task(id)
        implies orig.has_task(id) by {
        let (p, i): (int, int) = choose|p: int, i: int|
            0 <= p < cur.slots_spec().len()
                && 0 <= i < cur.slots_spec()[p].len()
                && (#[trigger] cur.slots_spec()[p][i]).task_id == id;
        let n = cur.slots_spec()[p][i];
        if scanned(orig.cursor_spec(), hi, orig.size_spec(), p) {
            lemma_filter_is_subset(
                orig.slots_spec()[p],
                |x: SleepRingNode| x.delay_to > t,
            );
            assert(orig.slots_spec()[p].contains(n));
            let j = choose|j: int|
                0 <= j < orig.slots_spec()[p].len()
                    && orig.slots_spec()[p][j] == n;
            assert(orig.slots_spec()[p][j].task_id == id);
        } else {
            assert(orig.slots_spec()[p][i].task_id == id);
        }
    }
}

/// Filtering keeps everything when the predicate holds of every element.
proof fn lemma_filter_all_true(s: Seq<SleepRingNode>, pred: spec_fn(SleepRingNode) -> bool)
    requires
        forall|i: int| 0 <= i < s.len() ==> pred(#[trigger] s[i]),
    ensures
        s.filter(pred) == s,
    decreases s.len(),
{
    reveal_with_fuel(Seq::filter, 2);
    if s.len() > 0 {
        assert forall|i: int| 0 <= i < s.drop_last().len()
            implies pred(#[trigger] s.drop_last()[i]) by {
            assert(s.drop_last()[i] == s[i]);
        }
        lemma_filter_all_true(s.drop_last(), pred);
        assert(pred(s.last()));
        assert(s.filter(pred) =~= s);
    } else {
        assert(s.filter(pred) =~= s);
    }
}

/// Filtering keeps nothing when the predicate holds of no element.
proof fn lemma_filter_none(s: Seq<SleepRingNode>, pred: spec_fn(SleepRingNode) -> bool)
    requires
        forall|i: int| 0 <= i < s.len() ==> !pred(#[trigger] s[i]),
    ensures
        s.filter(pred) == Seq::<SleepRingNode>::empty(),
    decreases s.len(),
{
    reveal_with_fuel(Seq::filter, 2);
    if s.len() > 0 {
        assert forall|i: int| 0 <= i < s.drop_last().len()
            implies !pred(#[trigger] s.drop_last()[i]) by {
            assert(s.drop_last()[i] == s[i]);
        }
        lemma_filter_none(s.drop_last(), pred);
        assert(!pred(s.last()));
    }
}

/// Re-draining a bucket that already kept only its not-yet-due nodes
/// changes nothing and yields nothing.
proof fn lemma_pending_idempotent(s: Seq<SleepRingNode>, t: u64)
    ensures
        pending_part(pending_part(s, t), t) == pending_part(s, t),
        due_part(pending_part(s, t), t) == Seq::<SleepRingNode>::empty(),
{
    broadcast use vstd::seq_lib::group_filter_ensures;

    let pend = pending_part(s, t);
    assert forall|i: int| 0 <= i < pend.len()
        implies (#[trigger] pend[i]).delay_to > t by {
    }
    lemma_filter_all_true(pend, |n: SleepRingNode| n.delay_to > t);
    lemma_filter_none(pend, |n: SleepRingNode| n.delay_to <= t);
}

/// Filtering a sequence of nodes with pairwise-distinct task ids leaves
/// the task ids pairwise distinct.
proof fn lemma_distinct_ids_filter(s: Seq<SleepRingNode>, pred: spec_fn(SleepRingNode) -> bool)
    requires
        distinct_ids(s),
    ensures
        distinct_ids(s.filter(pred)),
    decreases s.len(),
{
    reveal_with_fuel(Seq::filter, 2);
    if s.len() > 0 {
        let d = s.drop_last();
        assert forall|i: int, j: int| 0 <= i < j < d.len()
            implies (#[trigger] d[i]).task_id != (#[trigger] d[j]).task_id by {
            assert(d[i] == s[i] && d[j] == s[j]);
        }
        lemma_distinct_ids_filter(d, pred);
        if pred(s.last()) {
            lemma_filter_is_subset(d, pred);
            let f = s.filter(pred);
            assert(f == d.filter(pred).push(s.last()));
            assert forall|i: int, j: int| 0 <= i < j < f.len()
                implies (#[trigger] f[i]).task_id != (#[trigger] f[j]).task_id by {
                if j == f.len() - 1 {
                    assert(f[j] == s.last());
                    assert(f[i] == d.filter(pred)[i]);
                    assert(d.contains(f[i]));
                    let w = choose|w: int| 0 <= w < d.len() && d[w] == f[i];
                    assert(s[w] == f[i]);
                    assert(s[w].task_id != s[s.len() - 1].task_id);
                } else {
                    assert(f[i] == d.filter(pred)[i]);
                    assert(f[j] == d.filter(pred)[j]);
                }
            }
        } else {
            assert(s.filter(pred) == d.filter(pred));
        }
    }
}

/// Extending the harvest walk by one index adds exactly the slot that
/// index lands on to the set of visited slots.
proof fn lemma_scanned_extend(c0: u64, exe: u64, sz: u64)
    requires
        c0 <= exe,
        exe < u64::MAX,
        sz > 0,
    ensures
        forall|q: int| #[trigger] scanned(c0, (exe + 1) as u64, sz, q)
            == (scanned(c0, exe, sz, q) || q == ((exe % sz) as int)),
{
    assert forall|q: int| #[trigger] scanned(c0, (exe + 1) as u64, sz, q)
        == (scanned(c0, exe, sz, q) || q == ((exe % sz) as int)) by {
        if scanned(c0, (exe + 1) as u64, sz, q) {
            let w = choose|w: u64|
                c0 <= w < ((exe + 1) as u64) && ((#[trigger] (w % sz)) as int) == q;
            if w < exe {
                assert(scanned(c0, exe, sz, q));
            } else {
                assert(w == exe);
            }
        }
        if scanned(c0, exe, sz, q) {
            let w = choose|w: u64|
                c0 <= w < exe && ((#[trigger] (w % sz)) as int) == q;
            assert(c0 <= w < ((exe + 1) as u64) && ((w % sz) as int) == q);
            assert(scanned(c0, (exe + 1) as u64, sz, q));
        }
        if q == ((exe % sz) as int) {
            assert(c0 <= exe < ((exe + 1) as u64) && ((exe % sz) as int) == q);
            assert(scanned(c0, (exe + 1) as u64, sz, q));
        }
    }
}

/// One step of the harvest walk preserves the wheel's law: visiting the
/// slot `exe` lands on, draining its due nodes into the result, and
/// advancing the cursor to `exe`.
#[verifier::rlimit(100)]
proof fn lemma_harvest_step(
    orig: SchedSleepRing,
    cur0: SchedSleepRing,
    cur1: SchedSleepRing,
    r0: Seq<u64>,
    r1: Seq<u64>,
    exe: u64,
    t: u64,
)
    requires
        orig.wf(),
        orig.ids_distinct(),
        cur0.wf(),
        cur0.ids_distinct(),
        orig.cursor_spec() <= exe,
        exe < t / orig.dur_spec(),
        harvested_state(orig, cur0, exe, t),
        cur0.cursor_spec() == cursor_after(orig.cursor_spec(), exe),
        result_sound(orig, r0, t),
        result_complete(orig, r0, exe, t),
        none_lost(orig, cur0, r0),
        removed_from(cur0, r0),
        distinct_seq(r0),
        ({
            let p = (exe % orig.size_spec()) as int;
            &&& cur1.dur_spec() == cur0.dur_spec()
            &&& cur1.size_spec() == cur0.size_spec()
            &&& cur1.cursor_spec() == exe
            &&& cur1.slots_spec() == cur0.slots_spec().update(
                p,
                pending_part(cur0.slots_spec()[p], t),
            )
            &&& r1 == r0 + ids_of(due_part(cur0.slots_spec()[p], t))
        }),
    ensures
        cur1.wf(),
        cur1.ids_distinct(),
        harvested_state(orig, cur1, (exe + 1) as u64, t),
        cur1.cursor_spec() == cursor_after(orig.cursor_spec(), (exe + 1) as u64),
        result_sound(orig, r1, t),
        result_complete(orig, r1, (exe + 1) as u64, t),
        none_lost(orig, cur1, r1),
        removed_from(cur1, r1),
        distinct_seq(r1),
{
    broadcast use vstd::seq_lib::group_filter_ensures;

    let c0 = orig.cursor_spec();
    let sz = orig.size_spec();
    let dur = orig.dur_spec();
    let cs = t / dur;
    let p = (exe % sz) as int;
    let sp = cur0.slots_spec()[p];
    let due = due_part(sp, t);
    let pend = pending_part(sp, t);

    assert(0 <= p < sz);
    assert(cur0.slots_spec().len() == sz);
    assert(cur1.slots_spec().len() == sz);

    lemma_filter_is_subset(sp, |n: SleepRingNode| n.delay_to <= t);
    lemma_filter_is_subset(sp, |n: SleepRingNode| n.delay_to > t);
    lemma_scanned_extend(c0, exe, sz);

    // Every node not yet due was filed no earlier than the current slot.
    assert forall|i: int| 0 <= i < pend.len()
        implies (#[trigger] pend[i]).vslot@ >= cs by {
        let n = pend[i];
        assert(n.delay_to > t);
        assert(sp.contains(n));
        let j = choose|j: int| 0 <= j < sp.len() && sp[j] == n;
        assert(cur0.node_ok(sp[j], p));
        vstd::arithmetic::div_mod::lemma_div_is_ordered(
            t as int,
            n.delay_to as int,
            dur as int,
        );
    }

    // Distinct ids within the visited slot's parts.
    assert forall|i: int, j: int| 0 <= i < j < sp.len()
        implies (#[trigger] sp[i]).task_id != (#[trigger] sp[j]).task_id by {
        assert(cur0.ids_distinct());
    }
    lemma_distinct_ids_filter(sp, |n: SleepRingNode| n.delay_to <= t);
    lemma_distinct_ids_filter(sp, |n: SleepRingNode| n.delay_to > t);

    // Any node of cur0 still carries the invariant, and any node with a
    // virtual slot below exe cannot exist in cur0.
    assert forall|q: int, i: int|
        0 <= q < sz && 0 <= i < cur0.slots_spec()[q].len()
        implies (#[trigger] cur0.slots_spec()[q][i]).vslot@ >= exe by {
        let n = cur0.slots_spec()[q][i];
        assert(cur0.node_ok(n, q));
        if n.vslot@ < exe {
            // Then its slot was already visited, so it is not yet due,
            // so it was filed at or past the current slot: contradiction.
            assert(c0 <= n.vslot@);
            assert(((n.vslot@ % sz) as int) == q);
            assert(scanned(c0, exe, sz, q));
            assert(cur0.slots_spec()[q] == pending_part(orig.slots_spec()[q], t));
            assert(n.delay_to > t);
            vstd::arithmetic::div_mod::lemma_div_is_ordered(
                t as int,
                n.delay_to as int,
                dur as int,
            );
            assert(n.vslot@ >= cs);
            assert(false);
        }
    }

    // cur1 is well-formed under the advanced cursor.
    assert forall|q: int, i: int|
        0 <= q < cur1.slots_spec().len()
            && 0 <= i < cur1.slots_spec()[q].len()
        implies cur1.node_ok(#[trigger] cur1.slots_spec()[q][i], q) by {
        if q == p {
            let n = cur1.slots_spec()[q][i];
            assert(n == pend[i]);
            assert(sp.contains(n));
            let j = choose|j: int| 0 <= j < sp.len() && sp[j] == n;
            assert(cur0.node_ok(sp[j], p));
            assert(n.vslot@ >= cs > exe);
        } else {
            let n = cur1.slots_spec()[q][i];
            assert(n == cur0.slots_spec()[q][i]);
            assert(cur0.node_ok(n, q));
            assert(n.vslot@ >= exe);
        }
    }

    // cur1 keeps ids pairwise distinct.
    assert forall|p1: int, i1: int, p2: int, i2: int|
        0 <= p1 < cur1.slots_spec().len()
            && 0 <= i1 < cur1.slots_spec()[p1].len()
            && 0 <= p2 < cur1.slots_spec().len()
            && 0 <= i2 < cur1.slots_spec()[p2].len()
            && (p1 != p2 || i1 != i2)
        implies (#[trigger] cur1.slots_spec()[p1][i1]).task_id
            != (#[trigger] cur1.slots_spec()[p2][i2]).task_id by {
        let n1 = cur1.slots_spec()[p1][i1];
        let n2 = cur1.slots_spec()[p2][i2];
        if p1 == p && p2 == p {
            assert(n1 == pend[i1] && n2 == pend[i2]);
            assert(distinct_ids(pend));
        } else if p1 == p {
            assert(sp.contains(n1));
            let j1 = choose|j: int| 0 <= j < sp.len() && sp[j] == n1;
            assert(cur0.slots_spec()[p][j1] == n1);
            assert(n2 == cur0.slots_spec()[p2][i2]);
        } else if p2 == p {
            assert(sp.contains(n2));
            let j2 = choose|j: int| 0 <= j < sp.len() && sp[j] == n2;
            assert(cur0.slots_spec()[p][j2] == n2);
            assert(n1 == cur0.slots_spec()[p1][i1]);
        } else {
            assert(n1 == cur0.slots_spec()[p1][i1]);
            assert(n2 == cur0.slots_spec()[p2][i2]);
        }
    }

    // The new ring is the walk's characterization one step further.
    assert forall|q: int| 0 <= q < orig.slots_spec().len()
        implies (#[trigger] cur1.slots_spec()[q]) == if scanned(
            c0,
            (exe + 1) as u64,
            sz,
            q,
        ) {
            pending_part(orig.slots_spec()[q], t)
        } else {
            orig.slots_spec()[q]
        } by {
        if q == p {
            assert(scanned(c0, (exe + 1) as u64, sz, q));
            if scanned(c0, exe, sz, p) {
                assert(sp == pending_part(orig.slots_spec()[p], t));
                lemma_pending_idempotent(orig.slots_spec()[p], t);
            } else {
                assert(sp == orig.slots_spec()[p]);
            }
        } else {
            assert(cur1.slots_spec()[q] == cur0.slots_spec()[q]);
            assert(scanned(c0, (exe + 1) as u64, sz, q) == scanned(c0, exe, sz, q));
        }
    }

    // If the visited slot had been visited before, nothing new came out.
    if scanned(c0, exe, sz, p) {
        assert(sp == pending_part(orig.slots_spec()[p], t));
        lemma_pending_idempotent(orig.slots_spec()[p], t);
        assert(due == Seq::<SleepRingNode>::empty());
        assert(r1 =~= r0);
    }

    // Soundness of the grown result.
    assert forall|k: int| 0 <= k < r1.len()
        implies due_node_with_id(orig, #[trigger] r1[k], t) by {
        if k < r0.len() {
            assert(r1[k] == r0[k]);
        } else {
            assert(!scanned(c0, exe, sz, p));
            assert(sp == orig.slots_spec()[p]);
            let k2 = k - r0.len();
            assert(r1[k] == ids_of(due)[k2]);
            assert(r1[k] == due[k2].task_id);
            assert(due[k2].delay_to <= t);
            assert(sp.contains(due[k2]));
            let j = choose|j: int| 0 <= j < sp.len() && sp[j] == due[k2];
            assert(orig.slots_spec()[p][j].task_id == r1[k]);
        }
    }

    // Completeness one slot further.
    assert forall|q: int, i: int|
        0 <= q < orig.slots_spec().len()
            && 0 <= i < orig.slots_spec()[q].len()
            && (#[trigger] orig.slots_spec()[q][i]).vslot@ < ((exe + 1) as u64)
            && orig.slots_spec()[q][i].delay_to <= t
        implies r1.contains(orig.slots_spec()[q][i].task_id) by {
        let n = orig.slots_spec()[q][i];
        if n.vslot@ < exe {
            assert(r0.contains(n.task_id));
            let w = choose|w: int| 0 <= w < r0.len() && r0[w] == n.task_id;
            assert(r1[w] == n.task_id);
        } else {
            assert(n.vslot@ == exe);
            assert(orig.node_ok(n, q));
            assert(q == p);
            if scanned(c0, exe, sz, p) {
                // The slot was already drained, so this node was either
                // harvested earlier or would still be parked and pending,
                // which its elapsed deadline rules out.
                if !r0.contains(n.task_id) {
                    assert(cur0.has_task(n.task_id));
                    let (q2, j2): (int, int) = choose|q2: int, j2: int|
                        0 <= q2 < cur0.slots_spec().len()
                            && 0 <= j2 < cur0.slots_spec()[q2].len()
                            && (#[trigger] cur0.slots_spec()[q2][j2]).task_id
                                == n.task_id;
                    let m = cur0.slots_spec()[q2][j2];
                    if scanned(c0, exe, sz, q2) {
                        assert(cur0.slots_spec()[q2]
                            == pending_part(orig.slots_spec()[q2], t));
                        assert(pending_part(orig.slots_spec()[q2], t).contains(m));
                        lemma_filter_is_subset(
                            orig.slots_spec()[q2],
                            |x: SleepRingNode| x.delay_to > t,
                        );
                        let j3 = choose|j3: int|
                            0 <= j3 < orig.slots_spec()[q2].len()
                                && orig.slots_spec()[q2][j3] == m;
                        if q2 != q || j3 != i {
                            assert(orig.slots_spec()[q2][j3].task_id
                                != orig.slots_spec()[q][i].task_id);
                            assert(false);
                        } else {
                            assert(m == n);
                            assert(m.delay_to > t);
                            assert(false);
                        }
                    } else {
                        assert(cur0.slots_spec()[q2] == orig.slots_spec()[q2]);
                        if q2 != q || j2 != i {
                            assert(orig.slots_spec()[q2][j2].task_id
                                != orig.slots_spec()[q][i].task_id);
                            assert(false);
                        } else {
                            assert(q2 == p);
                            assert(false);
                        }
                    }
                } else {
                    let w = choose|w: int|
                        0 <= w < r0.len() && r0[w] == n.task_id;
                    assert(r1[w] == n.task_id);
                }
            } else {
                assert(sp == orig.slots_spec()[p]);
                assert(sp[i] == n);
                assert(due.contains(n));
                let w = choose|w: int| 0 <= w < due.len() && due[w] == n;
                assert(ids_of(due)[w] == n.task_id);
                assert(r1[r0.len() + w] == n.task_id);
            }
        }
    }

    // Nothing is lost.
    assert forall|q: int, i: int|
        0 <= q < orig.slots_spec().len()
            && 0 <= i < orig.slots_spec()[q].len()
        implies r1.contains((#[trigger] orig.slots_spec()[q][i]).task_id)
            || cur1.has_task(orig.slots_spec()[q][i].task_id) by {
        let n = orig.slots_spec()[q][i];
        if !r1.contains(n.task_id) {
            assert forall|w: int| 0 <= w < r0.len()
                implies (#[trigger] r0[w]) != n.task_id by {
                assert(r1[w] == r0[w]);
            }
            assert(!r0.contains(n.task_id));
            assert(cur0.has_task(n.task_id));
            let (q2, j2): (int, int) = choose|q2: int, j2: int|
                0 <= q2 < cur0.slots_spec().len()
                    && 0 <= j2 < cur0.slots_spec()[q2].len()
                    && (#[trigger] cur0.slots_spec()[q2][j2]).task_id == n.task_id;
            let m = cur0.slots_spec()[q2][j2];
            if q2 != p {
                assert(cur1.slots_spec()[q2][j2] == m);
                assert(cur1.has_task(n.task_id));
            } else {
                if m.delay_to <= t {
                    assert(due.contains(m));
                    let w = choose|w: int| 0 <= w < due.len() && due[w] == m;
                    assert(ids_of(due)[w] == m.task_id);
                    assert(r1[r0.len() + w] == n.task_id);
                    assert(false);
                } else {
                    assert(pend.contains(m));
                    let w = choose|w: int| 0 <= w < pend.len() && pend[w] == m;
                    assert(cur1.slots_spec()[p][w] == m);
                    assert(cur1.has_task(n.task_id));
                }
            }
        }
    }

    // Nothing harvested stays parked.
    assert forall|k: int| 0 <= k < r1.len()
        implies !cur1.has_task(#[trigger] r1[k]) by {
        if cur1.has_task(r1[k]) {
            let (q2, j2): (int, int) = choose|q2: int, j2: int|
                0 <= q2 < cur1.slots_spec().len()
                    && 0 <= j2 < cur1.slots_spec()[q2].len()
                    && (#[trigger] cur1.slots_spec()[q2][j2]).task_id == r1[k];
            let m = cur1.slots_spec()[q2][j2];
            let ghost mj: int = if q2 == p {
                choose|j: int| 0 <= j < sp.len() && sp[j] == m
            } else {
                j2
            };
            if q2 == p {
                assert(m == pend[j2]);
                assert(sp.contains(m));
                assert(0 <= mj < sp.len() && sp[mj] == m);
                assert(cur0.slots_spec()[p][mj] == m);
            } else {
                assert(cur0.slots_spec()[q2][mj] == m);
            }
            if k < r0.len() {
                assert(r1[k] == r0[k]);
                assert(!cur0.has_task(r0[k]));
                assert(false);
            } else {
                let k2 = k - r0.len();
                assert(r1[k] == due[k2].task_id);
                assert(due[k2].delay_to <= t);
                assert(sp.contains(due[k2]));
                let jd = choose|j: int| 0 <= j < sp.len() && sp[j] == due[k2];
                assert(cur0.slots_spec()[p][jd] == due[k2]);
                if q2 == p {
                    assert(m.delay_to > t);
                    assert(m != due[k2]);
                    assert(mj != jd);
                    assert(cur0.slots_spec()[p][mj].task_id
                        != cur0.slots_spec()[p][jd].task_id);
                    assert(false);
                } else {
                    assert(cur0.slots_spec()[q2][mj].task_id
                        != cur0.slots_spec()[p][jd].task_id);
                    assert(false);
                }
            }
        }
    }

    // No id is harvested twice.
    assert forall|k1: int, k2: int| 0 <= k1 < k2 < r1.len()
        implies (#[trigger] r1[k1]) != (#[trigger] r1[k2]) by {
        if k2 < r0.len() {
            assert(r1[k1] == r0[k1] && r1[k2] == r0[k2]);
        } else if k1 >= r0.len() {
            let a = k1 - r0.len();
            let b = k2 - r0.len();
            assert(r1[k1] == due[a].task_id && r1[k2] == due[b].task_id);
            assert(distinct_ids(due));
        } else {
            let b = k2 - r0.len();
            assert(r1[k1] == r0[k1] && r1[k2] == due[b].task_id);
            assert(sp.contains(due[b]));
            let j = choose|j: int| 0 <= j < sp.len() && sp[j] == due[b];
            assert(cur0.slots_spec()[p][j] == due[b]);
            assert(cur0.has_task(due[b].task_id));
            assert(!cur0.has_task(r0[k1]));
        }
    }
}

} // verus!
