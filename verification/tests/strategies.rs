//! Tests of the scheduler model: which bridging strategies preserve the
//! baseline task's liveness, and who may acquire a handle.

use runtime_bridge::sched::{Sched, TaskLoc, Thread};

#[test]
fn handle_only_from_managed_threads() {
    let s = Sched::new(2);
    assert!(s.try_handle(Thread::Worker(0)).is_some());
    assert!(s.try_handle(Thread::Worker(1)).is_some());
    assert!(s.try_handle(Thread::Worker(2)).is_none());
    assert!(s.try_handle(Thread::Foreign).is_none());
}

#[test]
fn strategy_a_starves_the_baseline() {
    let mut s = Sched::new(2);
    let baseline = s.spawn(0);
    s.tick();
    s.tick();
    s.tick();
    assert_eq!(s.tasks[baseline].count, 3);
    // The handle is acquired on a managed thread; the blocking wait then
    // occupies that same worker.
    let h = s.try_handle(Thread::Worker(0)).expect("worker 0 is managed");
    let driven = s.strategy_a(h, 0);
    s.tick();
    s.tick();
    // The baseline stalls silently, while the driven task advances.
    assert_eq!(s.tasks[baseline].count, 3);
    assert_eq!(s.tasks[driven].count, 2);
}

#[test]
fn strategy_b_keeps_the_baseline_alive() {
    let mut s = Sched::new(2);
    let baseline = s.spawn(0);
    s.tick();
    s.tick();
    s.tick();
    let h = s.try_handle(Thread::Worker(0)).expect("worker 0 is managed");
    let driven = s.strategy_b(h, 0, 1);
    s.tick();
    s.tick();
    // Both counters keep strictly increasing: no starvation.
    assert_eq!(s.tasks[baseline].count, 5);
    assert_eq!(s.tasks[driven].count, 2);
    assert_eq!(s.tasks[baseline].loc, TaskLoc::Scheduled { worker: 1 });
}

#[test]
fn strategy_b_degrades_on_a_single_worker() {
    let mut s = Sched::new(1);
    let baseline = s.spawn(0);
    s.tick();
    let h = s.try_handle(Thread::Worker(0)).expect("worker 0 is managed");
    // With one worker the only migration target is the worker itself: the
    // documented limitation.
    let driven = s.strategy_b(h, 0, 0);
    s.tick();
    s.tick();
    assert_eq!(s.tasks[baseline].count, 1);
    assert_eq!(s.tasks[driven].count, 2);
}

#[test]
fn strategy_c_is_safe_on_any_pool() {
    // Even a single-worker pool: the blocking wait sits on a foreign thread.
    let mut s = Sched::new(1);
    let baseline = s.spawn(0);
    s.tick();
    s.tick();
    s.tick();
    let h = s.try_handle(Thread::Worker(0)).expect("worker 0 is managed");
    let driven = s.strategy_c(h);
    s.tick();
    s.tick();
    assert_eq!(s.tasks[baseline].count, 5);
    assert_eq!(s.tasks[driven].count, 2);
    assert_eq!(s.tasks[driven].loc, TaskLoc::Driven { thread: Thread::Foreign });
    // No worker was lost.
    assert_eq!(s.blocked, vec![false]);
}

#[test]
fn driven_task_counts_from_one_and_increases() {
    let mut s = Sched::new(2);
    let h = s.try_handle(Thread::Worker(0)).expect("worker 0 is managed");
    let driven = s.strategy_a(h, 0);
    assert_eq!(s.tasks[driven].count, 0);
    let mut last: u64 = 0;
    for _ in 0..4 {
        s.tick();
        let now = s.tasks[driven].count;
        assert!(now > last);
        assert_eq!(now, last + 1);
        last = now;
    }
}

#[test]
fn interleaving_of_two_live_tasks() {
    // Baseline and strategy-spawned task have no ordering relationship once
    // both are live: each simply emits once per resumption step.
    let mut s = Sched::new(3);
    let one = s.spawn(0);
    let two = s.spawn(1);
    s.tick();
    let h = s.try_handle(Thread::Worker(2)).expect("worker 2 is managed");
    let driven = s.strategy_b(h, 2, 0);
    s.tick();
    assert_eq!(s.tasks[one].count, 2);
    assert_eq!(s.tasks[two].count, 2);
    assert_eq!(s.tasks[driven].count, 1);
}
