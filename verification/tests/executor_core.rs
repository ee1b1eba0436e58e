//! Tests of the runtime's building blocks: run queue, task table, clock,
//! context, wake capability, messages and suspension values.

use tinysched::pollable::{Advance, Pollable};
use tinysched::runqueue::RunQueue;
use tinysched::runtime::Runtime;
use tinysched::sched_context::SchedContext;
use tinysched::sched_msg::{SchedCmd, SchedMsg};
use tinysched::sched_param::SchedParams;
use tinysched::sched_wake::{sched_waker_create, SchedWake};
use tinysched::sleep_async_node::SleepAsyncNode;
use tinysched::sleep_node::SleepRet;
use tinysched::task::SchedTask;
use tinysched::taskmng::SchedTaskMng;
use tinysched::tsc_time_clock::TscClock;

#[test]
fn run_queue_is_fifo() {
    let mut q = RunQueue::new();
    assert_eq!(q.len(), 0);
    assert_eq!(q.take_one_task(), None);
    q.push_one_task(10);
    q.push_one_task(11);
    q.push_one_task(12);
    assert_eq!(q.len(), 3);
    assert_eq!(q.take_one_task(), Some(10));
    assert_eq!(q.take_one_task(), Some(11));
    assert_eq!(q.take_one_task(), Some(12));
    assert_eq!(q.take_one_task(), None);
}

#[test]
fn task_table_assigns_distinct_increasing_ids() {
    let mut m: SchedTaskMng<SleepRet> = SchedTaskMng::new();
    let mut ids: Vec<u64> = Vec::new();
    for k in 0..20u64 {
        let t = SchedTask::new(String::from("t"), SleepRet::new(k));
        let id = m.add_task(t).unwrap();
        ids.push(id);
    }
    for i in 0..ids.len() {
        for j in (i + 1)..ids.len() {
            assert!(ids[i] < ids[j]);
        }
    }
    assert_eq!(ids[0], 1);
    assert_eq!(ids[19], 20);
    assert_eq!(m.task_count(), 20);
}

#[test]
fn task_table_remove_is_exact() {
    let mut m: SchedTaskMng<SleepRet> = SchedTaskMng::new();
    let a = m.add_task(SchedTask::new(String::from("a"), SleepRet::new(0))).unwrap();
    let b = m.add_task(SchedTask::new(String::from("b"), SleepRet::new(0))).unwrap();
    assert!(m.contains_id(a));
    assert!(m.contains_id(b));
    let t = m.remove_task(a).unwrap();
    assert_eq!(t.get_id(), a);
    assert!(!m.contains_id(a));
    assert!(m.remove_task(a).is_err());
    assert_eq!(m.task_count(), 1);
}

#[test]
fn task_carries_name_and_block() {
    let mut t = SchedTask::new(String::from("job"), SleepRet::new(7));
    assert_eq!(t.get_id(), 0);
    t.set_id(9);
    assert_eq!(t.get_id(), 9);
    assert!(t.get_task_fut().is_some());
}

#[test]
fn clock_reports_exact_microseconds() {
    let mut c = TscClock::new(1_000_000, 0);
    assert_eq!(c.rdtsc_usec(5), 5);
    assert_eq!(c.rdtsc_usec(12), 12);
    // A lower raw sample is absorbed: no delta, no regression.
    assert_eq!(c.rdtsc_usec(3), 12);
    // Growth resumes from the new raw baseline.
    assert_eq!(c.rdtsc_usec(10), 19);

    let mut khz = TscClock::new(1_000, 0);
    // 1000 ticks per second: one tick is a millisecond.
    assert_eq!(khz.rdtsc_usec(2), 2_000);
}

#[test]
fn clock_never_decreases_over_many_noisy_samples() {
    let mut c = TscClock::new(1_000_000, 0);
    let mut prev: u64 = 0;
    let mut raw: u64 = 1;
    let mut lcg: u64 = 88172645463325252;
    for i in 0..10_000u64 {
        lcg = lcg.wrapping_mul(6364136223846793005).wrapping_add(1442695040888963407);
        if i % 7 == 3 {
            // Force the raw counter to report a smaller sample.
            raw = raw.saturating_sub(1 + lcg % 50);
        } else {
            raw = raw.saturating_add(lcg % 100);
        }
        let now = c.rdtsc_usec(raw);
        assert!(now >= prev);
        prev = now;
    }
}

#[test]
fn context_tracks_task_time_and_sleep_request() {
    let mut ctx = SchedContext::new(44, 3);
    assert_eq!(ctx.get_time_usec(), 44);
    assert_eq!(ctx.get_sched_id(), 3);
    assert_eq!(ctx.get_curr_task(), None);
    ctx.set_curr_task(Some(8));
    assert_eq!(ctx.get_curr_task(), Some(8));
    ctx.set_time_usec(90);
    assert_eq!(ctx.get_time_usec(), 90);
    assert_eq!(ctx.take_sleep_request(), None);
    ctx.request_sleep(500);
    ctx.request_sleep(700);
    assert_eq!(ctx.take_sleep_request(), Some(700));
    assert_eq!(ctx.take_sleep_request(), None);
}

#[test]
fn wake_capability_reports_identity_and_inert_wakes() {
    let mut ctx = SchedContext::new(0, 5);
    ctx.set_curr_task(Some(21));
    let w = sched_waker_create(&ctx);
    assert_eq!(w.get_sched_id(), 5);
    assert_eq!(w.get_task_id(), Some(21));
    let w2 = w.clone();
    w2.invoke_by_ref();
    w2.invoke();
    w.invoke_by_ref();
    assert_eq!(w.get_sched_id(), 5);
    // The context itself offers the same inert wake interface.
    ctx.wake_by_ref();
    ctx.wake();
}

#[test]
fn sched_msg_hands_out_its_payload_once() {
    let mut m: SchedMsg<SleepRet> = SchedMsg::new(SchedCmd::NewTask, Some(SleepRet::new(1)));
    assert_eq!(m.get_cmd(), SchedCmd::NewTask);
    assert!(m.get_task_func().is_some());
    assert!(m.get_task_func().is_none());
    assert_eq!(m.get_cmd(), SchedCmd::NewTask);

    let q: SchedMsg<SleepRet> = SchedMsg::new(SchedCmd::Quit, None);
    assert_eq!(q.get_cmd(), SchedCmd::Quit);
}

#[test]
fn sched_params_keep_their_id() {
    let p = SchedParams::new(6, String::from("worker"));
    assert_eq!(p.get_id(), 6);
}

#[test]
fn sleep_node_pends_before_deadline_and_completes_after() {
    let mut ctx = SchedContext::new(99, 0);
    ctx.set_curr_task(Some(4));
    let mut n = SleepAsyncNode::new(100);
    assert!(matches!(n.advance(&mut ctx), Advance::Pending));
    assert_eq!(ctx.take_sleep_request(), Some(100));
    ctx.set_time_usec(100);
    assert!(matches!(n.advance(&mut ctx), Advance::Ready));
    assert_eq!(ctx.take_sleep_request(), None);
}

#[test]
fn sleep_ret_completes_immediately() {
    let mut ctx = SchedContext::new(0, 0);
    ctx.set_curr_task(Some(1));
    let mut n = SleepRet::new(1_000_000);
    assert!(matches!(n.advance(&mut ctx), Advance::Ready));
}

#[test]
fn runtime_time_drives_sleep_deadlines() {
    let mut rt = Runtime::new();
    assert_eq!(rt.get_time_usec(), 0);
    rt.set_time_usec(50);
    assert_eq!(rt.get_time_usec(), 50);
    // sleep(30) suspends until virtual time 80.
    let mut node = rt.sleep(30);
    let mut ctx = SchedContext::new(79, 0);
    ctx.set_curr_task(Some(2));
    assert!(matches!(node.advance(&mut ctx), Advance::Pending));
    ctx.set_time_usec(80);
    assert!(matches!(node.advance(&mut ctx), Advance::Ready));
}
