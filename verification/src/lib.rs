//! A verified model of a runtime-bridging protocol: how a program obtains a
//! handle to a running task scheduler and synchronously drives asynchronous
//! work to completion, and which of three bridging strategies preserve the
//! liveness of other scheduled work.
//!
//! The library holds the decisions of the program: selector parsing, the
//! orchestrator's state machine, the periodic task's counter, and a model of
//! the scheduler's worker pool under each bridging strategy. The surrounding
//! process — the real scheduler, threads, sleeping and printing — lives
//! outside the library and only feeds it plain values.

pub mod orchestrator;
pub mod sched;
pub mod selector;
pub mod task;
