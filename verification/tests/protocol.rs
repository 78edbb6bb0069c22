//! Tests of the selector, the periodic task's counter, and the
//! orchestrator's state machine and timing.

use runtime_bridge::orchestrator::{
    intervals_elapsed, step, Action, Event, Phase, DELAY_MS, INTERVAL_MS,
};
use runtime_bridge::selector::{baseline_label, label, parse_case, usage, Case};
use runtime_bridge::task::PeriodicTask;

#[test]
fn selector_accepts_each_case() {
    assert_eq!(parse_case("a"), Some(Case::A));
    assert_eq!(parse_case("b"), Some(Case::B));
    assert_eq!(parse_case("c"), Some(Case::C));
}

#[test]
fn selector_rejects_everything_else() {
    assert_eq!(parse_case(""), None);
    assert_eq!(parse_case("d"), None);
    assert_eq!(parse_case("A"), None);
    assert_eq!(parse_case("ab"), None);
    assert_eq!(parse_case("abc"), None);
    assert_eq!(parse_case(" a"), None);
    assert_eq!(parse_case("usage"), None);
}

#[test]
fn labels_match_the_log_lines() {
    assert_eq!(label(Case::A), "A");
    assert_eq!(label(Case::B), "B");
    assert_eq!(label(Case::C), "C");
    assert_eq!(baseline_label(), "main");
    assert_eq!(usage(), "Usage: ./run.sh case");
}

#[test]
fn counter_emits_strictly_increasing_from_one() {
    let mut t = PeriodicTask::new();
    assert_eq!(t.count, 0);
    let mut emitted: Vec<u64> = Vec::new();
    for _ in 0..5 {
        emitted.push(t.tick());
    }
    assert_eq!(emitted, vec![1, 2, 3, 4, 5]);
    for w in emitted.windows(2) {
        assert!(w[0] < w[1]);
    }
    assert_eq!(emitted[0], 1);
}

#[test]
fn bad_selector_prints_usage_and_stops() {
    let parsed = parse_case("x");
    let (p, a) = step(Phase::ParsingSelector, Event::ArgParsed { case: parsed });
    assert_eq!(p, Phase::UsageExit);
    assert_eq!(a, Action::PrintUsage);
    // Terminal: no further event schedules anything.
    let (p2, a2) = step(p, Event::BaselineSpawned);
    assert_eq!(p2, Phase::UsageExit);
    assert_eq!(a2, Action::Nothing);
    let (p3, a3) = step(p, Event::DelayElapsed);
    assert_eq!(p3, Phase::UsageExit);
    assert_eq!(a3, Action::Nothing);
}

#[test]
fn missing_selector_prints_usage() {
    let (p, a) = step(Phase::ParsingSelector, Event::ArgParsed { case: None });
    assert_eq!(p, Phase::UsageExit);
    assert_eq!(a, Action::PrintUsage);
}

#[test]
fn orchestrator_happy_path() {
    for case in [Case::A, Case::B, Case::C] {
        let (p, a) = step(Phase::ParsingSelector, Event::ArgParsed { case: Some(case) });
        assert_eq!(p, Phase::BaselineRunning { case });
        assert_eq!(a, Action::SpawnBaseline);
        let (p, a) = step(p, Event::BaselineSpawned);
        assert_eq!(p, Phase::Delaying { case });
        assert_eq!(a, Action::StartDelay { ms: 3100 });
        let (p, a) = step(p, Event::DelayElapsed);
        assert_eq!(p, Phase::StrategyDispatched { case });
        assert_eq!(a, Action::RunStrategy { case });
        let (p, a) = step(p, Event::StrategyReturned);
        assert_eq!(p, Phase::AwaitingBaselineForever);
        assert_eq!(a, Action::AwaitBaseline);
    }
}

#[test]
fn baseline_failure_is_fatal() {
    let (p, a) = step(Phase::AwaitingBaselineForever, Event::BaselineFailed);
    assert_eq!(p, Phase::Fatal);
    assert_eq!(a, Action::ReportFailure);
}

#[test]
fn foreign_events_change_nothing() {
    let (p, a) = step(Phase::ParsingSelector, Event::DelayElapsed);
    assert_eq!(p, Phase::ParsingSelector);
    assert_eq!(a, Action::Nothing);
    let (p, a) = step(Phase::Delaying { case: Case::B }, Event::BaselineFailed);
    assert_eq!(p, Phase::Delaying { case: Case::B });
    assert_eq!(a, Action::Nothing);
}

#[test]
fn three_baseline_emissions_before_dispatch() {
    // 3.1 seconds of delay over a 1-second interval: three full intervals
    // elapsed, the fourth pending.
    assert_eq!(DELAY_MS, 3100);
    assert_eq!(INTERVAL_MS, 1000);
    assert_eq!(intervals_elapsed(DELAY_MS, INTERVAL_MS), 3);
}

#[test]
fn interval_boundaries() {
    assert_eq!(intervals_elapsed(0, 1000), 0);
    assert_eq!(intervals_elapsed(999, 1000), 0);
    assert_eq!(intervals_elapsed(1000, 1000), 1);
    assert_eq!(intervals_elapsed(3099, 1000), 3);
    assert_eq!(intervals_elapsed(4000, 1000), 4);
}
