//! The orchestrator: parses the selector, launches the baseline task, waits
//! a fixed delay, dispatches the selected bridging strategy, and then awaits
//! the baseline task forever. The waiting, spawning and printing happen
//! outside the library; here stands the state machine that decides, at each
//! point, what to do next.

use crate::selector::{case_for, Case};
use vstd::prelude::*;

verus! {

/// The fixed interval, in milliseconds, between two emissions of a periodic
/// task.
pub const INTERVAL_MS: u64 = 1000;

/// The delay, in milliseconds, between launching the baseline task and
/// dispatching the selected strategy: chosen to exceed the task interval by a
/// margin, so that several baseline emissions are observable before the
/// strategy can endanger them.
pub const DELAY_MS: u64 = 3100;

/// The phases the orchestrator passes through.
#[derive(Clone, Copy, PartialEq, Eq, Structural, Debug)]
pub enum Phase {
    /// Reading the command-line selector.
    ParsingSelector,
    /// A strategy is selected; the baseline task is being launched.
    BaselineRunning { case: Case },
    /// The baseline task runs; the fixed delay is elapsing.
    Delaying { case: Case },
    /// The delay elapsed; the selected strategy is being dispatched.
    StrategyDispatched { case: Case },
    /// Awaiting the baseline task, which never completes: terminal except
    /// through external interruption or a baseline failure.
    AwaitingBaselineForever,
    /// The selector was missing or unrecognized: usage was printed and no
    /// scheduling work is ever performed. Terminal.
    UsageExit,
    /// The indefinitely-awaited baseline task terminated abnormally and the
    /// failure was surfaced. Terminal.
    Fatal,
}

/// What the surrounding process reports back to the orchestrator.
#[derive(Clone, Copy, PartialEq, Eq, Structural, Debug)]
pub enum Event {
    /// The command-line selector was read and parsed.
    ArgParsed { case: Option<Case> },
    /// The baseline task is scheduled.
    BaselineSpawned,
    /// The fixed delay elapsed.
    DelayElapsed,
    /// The dispatched strategy returned control.
    StrategyReturned,
    /// The awaited baseline task terminated abnormally.
    BaselineFailed,
}

/// What the orchestrator asks the surrounding process to do next.
#[derive(Clone, Copy, PartialEq, Eq, Structural, Debug)]
pub enum Action {
    /// Print the usage line and stop without scheduling anything.
    PrintUsage,
    /// Schedule the baseline task.
    SpawnBaseline,
    /// Let the given delay elapse while the scheduler runs.
    StartDelay { ms: u64 },
    /// Run the selected bridging strategy.
    RunStrategy { case: Case },
    /// Await the baseline task's completion, indefinitely.
    AwaitBaseline,
    /// Surface the baseline task's abnormal termination as a fatal failure.
    ReportFailure,
    /// The event does not belong to the current phase: do nothing.
    Nothing,
}

/// The orchestrator's transition table: next phase and requested action for
/// each phase and event. An event foreign to the current phase changes
/// nothing and requests nothing.
pub open spec fn step_spec(p: Phase, e: Event) -> (Phase, Action) {
    match (p, e) {
        (Phase::ParsingSelector, Event::ArgParsed { case }) => match case {
            Some(c) => (Phase::BaselineRunning { case: c }, Action::SpawnBaseline),
            None => (Phase::UsageExit, Action::PrintUsage),
        },
        (Phase::BaselineRunning { case }, Event::BaselineSpawned) => (
            Phase::Delaying { case },
            Action::StartDelay { ms: DELAY_MS },
        ),
        (Phase::Delaying { case }, Event::DelayElapsed) => (
            Phase::StrategyDispatched { case },
            Action::RunStrategy { case },
        ),
        (Phase::StrategyDispatched { case: _ }, Event::StrategyReturned) => (
            Phase::AwaitingBaselineForever,
            Action::AwaitBaseline,
        ),
        (Phase::AwaitingBaselineForever, Event::BaselineFailed) => (
            Phase::Fatal,
            Action::ReportFailure,
        ),
        _ => (p, Action::Nothing),
    }
}

/// One step of the orchestrator.
pub fn step(p: Phase, e: Event) -> (r: (Phase, Action))
    ensures
        r == step_spec(p, e),
{
    match (p, e) {
        (Phase::ParsingSelector, Event::ArgParsed { case }) => match case {
            Some(c) => (Phase::BaselineRunning { case: c }, Action::SpawnBaseline),
            None => (Phase::UsageExit, Action::PrintUsage),
        },
        (Phase::BaselineRunning { case }, Event::BaselineSpawned) => (
            Phase::Delaying { case },
            Action::StartDelay { ms: DELAY_MS },
        ),
        (Phase::Delaying { case }, Event::DelayElapsed) => (
            Phase::StrategyDispatched { case },
            Action::RunStrategy { case },
        ),
        (Phase::StrategyDispatched { case: _ }, Event::StrategyReturned) => (
            Phase::AwaitingBaselineForever,
            Action::AwaitBaseline,
        ),
        (Phase::AwaitingBaselineForever, Event::BaselineFailed) => (
            Phase::Fatal,
            Action::ReportFailure,
        ),
        _ => (p, Action::Nothing),
    }
}

/// The number of full task intervals that fit into an elapsed span: how many
/// emissions a live periodic task has made by then.
pub open spec fn full_intervals(elapsed_ms: int, interval_ms: int) -> int
    recommends
        interval_ms > 0,
{
    elapsed_ms / interval_ms
}

/// How many counter values a live periodic task with the given interval has
/// emitted once `elapsed_ms` milliseconds have passed.
pub fn intervals_elapsed(elapsed_ms: u64, interval_ms: u64) -> (n: u64)
    requires
        interval_ms > 0,
    ensures
        n == full_intervals(elapsed_ms as int, interval_ms as int),
{
    elapsed_ms / interval_ms
}

/// Selector exhaustiveness: for every string other than `a`, `b` and `c`,
/// parsing yields no strategy, and the orchestrator's only move is to print
/// the usage line and stop — no scheduling work is ever requested.
pub proof fn lemma_selector_exhaustive(s: Seq<char>)
    requires
        !(s.len() == 1 && (s[0] == 'a' || s[0] == 'b' || s[0] == 'c')),
    ensures
        case_for(s) is None,
        step_spec(Phase::ParsingSelector, Event::ArgParsed { case: case_for(s) }) == (
            Phase::UsageExit,
            Action::PrintUsage,
        ),
{
}

} // verus!
