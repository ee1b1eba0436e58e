//! Tests of the timer wheel: slot buckets, deadline filing, the
//! clamp-to-cursor rule, and the harvest walk.

use tinysched::sched_sleep_ring::{SchedSleepRing, SleepRingNode, SlotVec};

#[test]
fn slot_vec_keeps_order() {
    let mut s = SlotVec::new();
    s.push_node(SleepRingNode::new(10, 1));
    s.push_node(SleepRingNode::new(20, 2));
    let first = s.pop_node().unwrap();
    assert_eq!(first.task_id, 1);
    assert_eq!(first.delay_to, 10);
    let rest = s.pop_all();
    assert_eq!(rest.len(), 1);
    assert_eq!(rest[0].task_id, 2);
    assert!(s.pop_node().is_none());
}

#[test]
fn slot_vec_drains_only_due_nodes() {
    let mut s = SlotVec::new();
    s.push_node(SleepRingNode::new(100, 1));
    s.push_node(SleepRingNode::new(300, 2));
    s.push_node(SleepRingNode::new(200, 3));
    let ready = s.pop_before_time(200);
    assert_eq!(ready.len(), 2);
    assert_eq!(ready[0].task_id, 1);
    assert_eq!(ready[1].task_id, 3);
    let rest = s.pop_all();
    assert_eq!(rest.len(), 1);
    assert_eq!(rest[0].task_id, 2);
}

#[test]
fn wheel_never_harvests_before_the_deadline() {
    // One slot is 100 microseconds wide.
    let mut ring = SchedSleepRing::new(1000);
    ring.add_task_node(250, 7);
    assert_eq!(ring.get_tasks(249).len(), 0);
    // At 250 the deadline's own slot is still open, so the walk stops
    // short of it; the node is harvested on the first walk that passes
    // its slot.
    assert_eq!(ring.get_tasks(250).len(), 0);
    let woken = ring.get_tasks(300);
    assert_eq!(woken, vec![7]);
    // Exactly once.
    assert_eq!(ring.get_tasks(10_000).len(), 0);
}

#[test]
fn wheel_wraparound_is_not_harvested_early() {
    // Four slots: physical indices wrap fast.
    let mut ring = SchedSleepRing::new(4);
    assert_eq!(ring.get_tasks(600).len(), 0);
    // Deadline 800 files at virtual slot 8, physical slot 0, which is
    // numerically below the cursor's physical position. It must still
    // wait for its real deadline.
    ring.add_task_node(800, 9);
    assert_eq!(ring.get_tasks(799).len(), 0);
    assert_eq!(ring.get_tasks(805).len(), 0);
    let woken = ring.get_tasks(900);
    assert_eq!(woken, vec![9]);
}

#[test]
fn wheel_clamps_stale_deadlines_to_the_cursor() {
    let mut ring = SchedSleepRing::new(4);
    assert_eq!(ring.get_tasks(600).len(), 0);
    // Deadline 300 is behind the cursor; it is filed at the cursor's
    // slot and comes out on the very next scan instead of waiting a
    // whole ring revolution.
    ring.add_task_node(300, 5);
    let woken = ring.get_tasks(610);
    assert_eq!(woken, vec![5]);
}

#[test]
fn wheel_harvests_all_due_tasks_across_slots() {
    let mut ring = SchedSleepRing::new(16);
    ring.add_task_node(150, 1);
    ring.add_task_node(450, 2);
    ring.add_task_node(1050, 3);
    let woken = ring.get_tasks(500);
    assert_eq!(woken, vec![1, 2]);
    let woken = ring.get_tasks(1200);
    assert_eq!(woken, vec![3]);
}
