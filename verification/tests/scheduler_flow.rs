//! Tests of the scheduler's run-loop behavior: submission, FIFO
//! completion, timed suspension, shutdown, and completion accounting.

use tinysched::pollable::{Advance, Pollable};
use tinysched::sched_context::SchedContext;
use tinysched::sched_msg::{SchedCmd, SchedMsg};
use tinysched::scheduler::{Scheduler, StepOutcome};
use tinysched::sleep_async_node::SleepAsyncNode;

/// A computation that optionally sleeps for a duration, then finishes.
struct TestComp {
    dur_usec: u64,
    node: Option<SleepAsyncNode>,
}

impl TestComp {
    fn instant() -> TestComp {
        TestComp { dur_usec: 0, node: None }
    }

    fn sleepy(dur_usec: u64) -> TestComp {
        TestComp { dur_usec, node: None }
    }
}

impl Pollable for TestComp {
    fn advance(&mut self, ctx: &mut SchedContext) -> Advance {
        if self.dur_usec == 0 {
            return Advance::Ready;
        }
        if self.node.is_none() {
            let deadline = ctx.get_time_usec().saturating_add(self.dur_usec);
            self.node = Some(SleepAsyncNode::new(deadline));
        }
        self.node.as_mut().unwrap().advance(ctx)
    }
}

fn submit(s: &mut Scheduler<TestComp>, c: TestComp) {
    let out = s.handle_message(SchedMsg::new(SchedCmd::NewTask, Some(c)));
    assert_eq!(out, StepOutcome::Continue);
}

#[test]
fn tasks_complete_in_submission_order() {
    let mut s: Scheduler<TestComp> = Scheduler::new(String::from("w"));
    submit(&mut s, TestComp::instant());
    submit(&mut s, TestComp::instant());
    submit(&mut s, TestComp::instant());
    assert_eq!(s.task_count(), 3);
    let completed = s.poll_ready_tasks();
    assert_eq!(completed, vec![1, 2, 3]);
    assert_eq!(s.task_count(), 0);
}

#[test]
fn new_task_is_polled_in_the_same_step() {
    let mut s: Scheduler<TestComp> = Scheduler::new(String::from("w"));
    // The step that delivers the message also drains the queue, so an
    // instant task completes within that very step.
    let msg = SchedMsg::new(SchedCmd::NewTask, Some(TestComp::instant()));
    let (out, done) = s.step(Some(msg));
    assert_eq!(out, StepOutcome::Continue);
    assert_eq!(done, vec![1]);
    assert_eq!(s.task_count(), 0);
}

#[test]
fn unknown_messages_are_ignored() {
    let mut s: Scheduler<TestComp> = Scheduler::new(String::from("w"));
    let (out, done) = s.step(Some(SchedMsg::new(SchedCmd::Unknown, None)));
    assert_eq!(out, StepOutcome::Continue);
    assert!(done.is_empty());
    assert_eq!(s.task_count(), 0);
}

#[test]
fn quit_stops_the_worker_at_once() {
    let mut s: Scheduler<TestComp> = Scheduler::new(String::from("w"));
    submit(&mut s, TestComp::instant());
    submit(&mut s, TestComp::sleepy(1_000_000));
    let before = s.task_count();
    let (out, done) = s.step(Some(SchedMsg::new(SchedCmd::Quit, None)));
    assert_eq!(out, StepOutcome::Stopped);
    assert!(done.is_empty());
    // Queued and sleeping tasks are left behind, unpolled.
    assert_eq!(s.task_count(), before);
}

#[test]
fn sleeping_task_completes_after_its_deadline() {
    let mut s: Scheduler<TestComp> = Scheduler::new(String::from("w"));
    let t0 = s.get_time_usec();
    // Sleeps 100 milliseconds, then finishes.
    submit(&mut s, TestComp::sleepy(100_000));
    let mut completions: Vec<u64> = Vec::new();
    let mut iterations: u64 = 0;
    while completions.is_empty() && iterations < 50_000_000 {
        let (out, done) = s.step(None);
        assert_eq!(out, StepOutcome::Continue);
        completions.extend(done);
        iterations += 1;
    }
    assert_eq!(completions, vec![1]);
    assert_eq!(s.task_count(), 0);
    // The wake-up came no earlier than the requested deadline.
    assert!(s.get_time_usec() >= t0 + 100_000);
}

#[test]
fn fifty_sleeping_tasks_all_complete_exactly_once() {
    let mut s: Scheduler<TestComp> = Scheduler::new(String::from("w"));
    let n: u64 = 50;
    for k in 0..n {
        // Short pseudo-random sleeps, up to half a millisecond.
        let dur = 1 + (k * 97) % 500;
        submit(&mut s, TestComp::sleepy(dur));
    }
    assert_eq!(s.task_count(), n as usize);
    let mut completions: Vec<u64> = Vec::new();
    let mut iterations: u64 = 0;
    while s.task_count() > 0 && iterations < 50_000_000 {
        let (out, done) = s.step(None);
        assert_eq!(out, StepOutcome::Continue);
        completions.extend(done);
        iterations += 1;
    }
    // No leaked entries, no double removals.
    assert_eq!(s.task_count(), 0);
    assert_eq!(completions.len(), n as usize);
    let mut sorted = completions.clone();
    sorted.sort();
    sorted.dedup();
    assert_eq!(sorted.len(), n as usize);
    assert_eq!(sorted, (1..=n).collect::<Vec<u64>>());
}

#[test]
fn scheduler_virtual_time_is_monotonic() {
    let mut s: Scheduler<TestComp> = Scheduler::new(String::from("w"));
    let mut prev = s.get_time_usec();
    for _ in 0..200 {
        let (out, _) = s.step(None);
        assert_eq!(out, StepOutcome::Continue);
        let now = s.get_time_usec();
        assert!(now >= prev);
        prev = now;
    }
}

#[test]
fn sched_sleep_builds_a_deadline_from_virtual_time() {
    let s: Scheduler<TestComp> = Scheduler::new(String::from("w"));
    let now = s.get_time_usec();
    let mut node = s.sched_sleep(1_000);
    let mut ctx = SchedContext::new(now, 0);
    ctx.set_curr_task(Some(1));
    assert!(matches!(node.advance(&mut ctx), Advance::Pending));
    assert_eq!(ctx.take_sleep_request(), Some(now + 1_000));
    ctx.set_time_usec(now + 1_000);
    assert!(matches!(node.advance(&mut ctx), Advance::Ready));
}
