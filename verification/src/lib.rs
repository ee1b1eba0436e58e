//! A cooperative, per-thread task runtime: a FIFO run queue, a task table
//! with unique ids, a slotted timer wheel for timed suspension, and a
//! monotonic microsecond clock, composed into a single-threaded scheduler.
//! A toy layered network stack serves as example workload.

pub mod network;
pub mod pollable;
pub mod runqueue;
pub mod runtime;
pub mod sched_context;
pub mod sched_msg;
pub mod sched_param;
pub mod sched_sleep_ring;
pub mod sched_wake;
pub mod scheduler;
pub mod sleep_async_node;
pub mod sleep_node;
pub mod task;
pub mod taskmng;
pub mod tsc_time_clock;
