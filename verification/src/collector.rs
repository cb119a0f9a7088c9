//! The collector's decisions: from its state and the event that its driver
//! reports to the next state and the action that the driver performs.
//!
//! The driver owns the timer and the calls to the server. It starts in
//! [`CollectorState::Idle`] by waiting for the timer, performs each action that
//! a step hands out, and reports what came of it as the next event, together
//! with the shutdown signal as it stands at that moment.

use vstd::prelude::*;
use crate::model::{Query, StatsResponse, StatusResponse, TickResult};

verus! {

/// The three snapshots of a poll, in the order in which they are fetched.
#[derive(Clone, Copy, Debug, PartialEq, Eq, Structural)]
pub enum FetchKind {
    QueryLog,
    Stats,
    Status,
}

/// How a fetch failed.
#[derive(Clone, Copy, Debug, PartialEq, Eq, Structural)]
pub enum FetchFailure {
    /// No response came.
    Transport,
    /// The response was no success, or its payload could not be read.
    Protocol,
    /// The payload breaks what the server promises of it.
    Validation,
}

/// Why the collector stopped.
#[derive(Clone, Copy, Debug, PartialEq, Eq, Structural)]
pub enum StopReason {
    /// The shutdown signal was raised.
    Cancelled,
    /// A fetch failed; nothing of that poll was published.
    FetchFailed(FetchKind, FetchFailure),
    /// The consumer of the mailbox is gone.
    ConsumerGone,
    /// The driver reported an event that the state did not await.
    OutOfTurn,
}

/// Where the collector stands within a poll.
#[derive(Clone, Debug, PartialEq, Eq)]
pub enum CollectorState {
    /// Between two polls, waiting for the timer.
    Idle,
    AwaitQueryLog,
    AwaitStats { queries: Vec<Query> },
    AwaitStatus { queries: Vec<Query>, stats: StatsResponse },
    /// The poll's result was handed out for publishing.
    AwaitPublish,
    Stopped(StopReason),
}

/// What the driver reports.
#[derive(Debug, PartialEq, Eq)]
pub enum CollectorEvent {
    TimerElapsed,
    QueryLog(Result<Vec<Query>, FetchFailure>),
    Stats(Result<StatsResponse, FetchFailure>),
    Status(Result<StatusResponse, FetchFailure>),
    /// The mailbox took the result (`true`) or is closed (`false`).
    Published(bool),
}

/// What the driver does next.
#[derive(Clone, Debug, PartialEq, Eq)]
pub enum CollectorAction {
    AwaitTimer,
    FetchQueryLog,
    FetchStats,
    FetchStatus,
    Publish(TickResult),
    Stop(StopReason),
}

/// The step of a collector that is not stopped and sees no shutdown signal.
pub open spec fn running_next(state: CollectorState, event: CollectorEvent) -> (
    CollectorState,
    CollectorAction,
) {
    match (state, event) {
        (CollectorState::Idle, CollectorEvent::TimerElapsed) => (
            CollectorState::AwaitQueryLog,
            CollectorAction::FetchQueryLog,
        ),
        (CollectorState::AwaitQueryLog, CollectorEvent::QueryLog(Ok(queries))) => (
            CollectorState::AwaitStats { queries },
            CollectorAction::FetchStats,
        ),
        (CollectorState::AwaitQueryLog, CollectorEvent::QueryLog(Err(failure))) => stop(
            StopReason::FetchFailed(FetchKind::QueryLog, failure),
        ),
        (CollectorState::AwaitStats { queries }, CollectorEvent::Stats(Ok(stats))) => (
            CollectorState::AwaitStatus { queries, stats },
            CollectorAction::FetchStatus,
        ),
        (CollectorState::AwaitStats { .. }, CollectorEvent::Stats(Err(failure))) => stop(
            StopReason::FetchFailed(FetchKind::Stats, failure),
        ),
        (CollectorState::AwaitStatus { queries, stats }, CollectorEvent::Status(Ok(status))) => (
            CollectorState::AwaitPublish,
            CollectorAction::Publish(TickResult { queries, stats, status }),
        ),
        (CollectorState::AwaitStatus { .. }, CollectorEvent::Status(Err(failure))) => stop(
            StopReason::FetchFailed(FetchKind::Status, failure),
        ),
        (CollectorState::AwaitPublish, CollectorEvent::Published(accepted)) => if accepted {
            (CollectorState::Idle, CollectorAction::AwaitTimer)
        } else {
            stop(StopReason::ConsumerGone)
        },
        (CollectorState::Stopped(reason), _) => stop(reason),
        _ => stop(StopReason::OutOfTurn),
    }
}

/// The stopped state with the action that reports it.
pub open spec fn stop(reason: StopReason) -> (CollectorState, CollectorAction) {
    (CollectorState::Stopped(reason), CollectorAction::Stop(reason))
}

/// The step of the collector. A stopped collector stays stopped; a raised
/// shutdown signal stops a running one whatever the event; else the event
/// decides.
pub open spec fn collector_next(
    state: CollectorState,
    event: CollectorEvent,
    shutdown_raised: bool,
) -> (CollectorState, CollectorAction) {
    match state {
        CollectorState::Stopped(reason) => stop(reason),
        _ => if shutdown_raised {
            stop(StopReason::Cancelled)
        } else {
            running_next(state, event)
        },
    }
}

impl CollectorState {
    /// Whether this is a stopped state.
    pub open spec fn is_stopped(self) -> bool {
        self is Stopped
    }

    /// Tells whether the collector has stopped.
    pub fn stopped(&self) -> (stopped: bool)
        ensures
            stopped == self.is_stopped(),
    {
        match self {
            CollectorState::Stopped(_) => true,
            _ => false,
        }
    }
}

fn halt(reason: StopReason) -> (next: (CollectorState, CollectorAction))
    ensures
        next == stop(reason),
{
    (CollectorState::Stopped(reason), CollectorAction::Stop(reason))
}

/// Takes one step of the collector.
pub fn collector_step(state: CollectorState, event: CollectorEvent, shutdown_raised: bool) -> (next:
    (CollectorState, CollectorAction))
    ensures
        next == collector_next(state, event, shutdown_raised),
{
    if let CollectorState::Stopped(reason) = state {
        return halt(reason);
    }
    if shutdown_raised {
        return halt(StopReason::Cancelled);
    }
    match state {
        CollectorState::Idle => match event {
            CollectorEvent::TimerElapsed => (
                CollectorState::AwaitQueryLog,
                CollectorAction::FetchQueryLog,
            ),
            _ => halt(StopReason::OutOfTurn),
        },
        CollectorState::AwaitQueryLog => match event {
            CollectorEvent::QueryLog(Ok(queries)) => (
                CollectorState::AwaitStats { queries },
                CollectorAction::FetchStats,
            ),
            CollectorEvent::QueryLog(Err(failure)) => halt(
                StopReason::FetchFailed(FetchKind::QueryLog, failure),
            ),
            _ => halt(StopReason::OutOfTurn),
        },
        CollectorState::AwaitStats { queries } => match event {
            CollectorEvent::Stats(Ok(stats)) => (
                CollectorState::AwaitStatus { queries, stats },
                CollectorAction::FetchStatus,
            ),
            CollectorEvent::Stats(Err(failure)) => halt(
                StopReason::FetchFailed(FetchKind::Stats, failure),
            ),
            _ => halt(StopReason::OutOfTurn),
        },
        CollectorState::AwaitStatus { queries, stats } => match event {
            CollectorEvent::Status(Ok(status)) => (
                CollectorState::AwaitPublish,
                CollectorAction::Publish(TickResult { queries, stats, status }),
            ),
            CollectorEvent::Status(Err(failure)) => halt(
                StopReason::FetchFailed(FetchKind::Status, failure),
            ),
            _ => halt(StopReason::OutOfTurn),
        },
        CollectorState::AwaitPublish => match event {
            CollectorEvent::Published(accepted) => if accepted {
                (CollectorState::Idle, CollectorAction::AwaitTimer)
            } else {
                halt(StopReason::ConsumerGone)
            },
            _ => halt(StopReason::OutOfTurn),
        },
        CollectorState::Stopped(reason) => halt(reason),
    }
}

/// What the driver reports in one step: the event, and whether the shutdown
/// signal was raised when it reported it.
pub type Report = (CollectorEvent, bool);

/// The state after a run of steps.
pub open spec fn state_after(state: CollectorState, reports: Seq<Report>) -> CollectorState
    decreases reports.len(),
{
    if reports.len() == 0 {
        state
    } else {
        collector_next(
            state_after(state, reports.drop_last()),
            reports.last().0,
            reports.last().1,
        ).0
    }
}

/// The results handed out for publishing during a run of steps, oldest first.
pub open spec fn published_during(state: CollectorState, reports: Seq<Report>) -> Seq<TickResult>
    decreases reports.len(),
{
    if reports.len() == 0 {
        Seq::empty()
    } else {
        let before = published_during(state, reports.drop_last());
        match collector_next(
            state_after(state, reports.drop_last()),
            reports.last().0,
            reports.last().1,
        ).1 {
            CollectorAction::Publish(tick) => before.push(tick),
            _ => before,
        }
    }
}

/// A result is handed out for publishing only when the status arrives, the
/// last of the three fetches of one poll, and it holds exactly the query log
/// and the statistics that the same poll fetched before: no part of a result
/// comes from another poll, and no result lacks a part.
pub proof fn lemma_publish_is_whole(
    state: CollectorState,
    event: CollectorEvent,
    shutdown_raised: bool,
    tick: TickResult,
)
    requires
        collector_next(state, event, shutdown_raised).1 == CollectorAction::Publish(tick),
    ensures
        !shutdown_raised,
        state == (CollectorState::AwaitStatus { queries: tick.queries, stats: tick.stats }),
        event == CollectorEvent::Status(Ok(tick.status)),
        collector_next(state, event, shutdown_raised).0 == CollectorState::AwaitPublish,
{
}

/// A fetch that fails stops the collector with the failure, and so does a
/// closed mailbox: nothing is handed out for publishing in that step.
pub proof fn lemma_failure_stops(state: CollectorState, failure: FetchFailure)
    ensures
        collector_next(CollectorState::AwaitQueryLog, CollectorEvent::QueryLog(Err(failure)), false)
            == stop(StopReason::FetchFailed(FetchKind::QueryLog, failure)),
        state is AwaitStats ==> collector_next(state, CollectorEvent::Stats(Err(failure)), false)
            == stop(StopReason::FetchFailed(FetchKind::Stats, failure)),
        state is AwaitStatus ==> collector_next(state, CollectorEvent::Status(Err(failure)), false)
            == stop(StopReason::FetchFailed(FetchKind::Status, failure)),
        collector_next(CollectorState::AwaitPublish, CollectorEvent::Published(false), false)
            == stop(StopReason::ConsumerGone),
{
}

/// A raised shutdown signal stops a running collector at its next step,
/// whatever the event, with nothing handed out for publishing.
pub proof fn lemma_shutdown_has_priority(state: CollectorState, event: CollectorEvent)
    requires
        !state.is_stopped(),
    ensures
        collector_next(state, event, true) == stop(StopReason::Cancelled),
{
}

/// A stopped collector stays stopped for the same reason, whatever is
/// reported to it, and hands out nothing for publishing.
pub proof fn lemma_stopped_is_final(reason: StopReason, reports: Seq<Report>)
    ensures
        state_after(CollectorState::Stopped(reason), reports) == CollectorState::Stopped(reason),
        published_during(CollectorState::Stopped(reason), reports) == Seq::<TickResult>::empty(),
    decreases reports.len(),
{
    if reports.len() > 0 {
        lemma_stopped_is_final(reason, reports.drop_last());
    }
}

/// The state and the results of a run that goes on after another.
pub proof fn lemma_run_splits(state: CollectorState, first: Seq<Report>, second: Seq<Report>)
    ensures
        state_after(state, first + second) == state_after(state_after(state, first), second),
        published_during(state, first + second) == published_during(state, first)
            + published_during(state_after(state, first), second),
    decreases second.len(),
{
    if second.len() == 0 {
        assert(first + second =~= first);
        assert(published_during(state, first) + Seq::<TickResult>::empty()
            =~= published_during(state, first));
    } else {
        let whole = first + second;
        assert(whole.drop_last() =~= first + second.drop_last());
        assert(whole.last() == second.last());
        lemma_run_splits(state, first, second.drop_last());
        let mid = state_after(state, first);
        match collector_next(
            state_after(mid, second.drop_last()),
            second.last().0,
            second.last().1,
        ).1 {
            CollectorAction::Publish(tick) => {
                assert(published_during(state, first) + published_during(
                    mid,
                    second.drop_last(),
                ).push(tick) =~= (published_during(state, first) + published_during(
                    mid,
                    second.drop_last(),
                )).push(tick));
            },
            _ => {},
        }
    }
}

/// Once a run has stopped the collector, whatever follows publishes nothing
/// more: the results of the whole run are those handed out before the stop.
pub proof fn lemma_nothing_after_stop(
    state: CollectorState,
    first: Seq<Report>,
    second: Seq<Report>,
)
    requires
        state_after(state, first).is_stopped(),
    ensures
        state_after(state, first + second) == state_after(state, first),
        published_during(state, first + second) == published_during(state, first),
{
    lemma_run_splits(state, first, second);
    let reason = state_after(state, first)->Stopped_0;
    lemma_stopped_is_final(reason, second);
    assert(published_during(state, first) + Seq::<TickResult>::empty() =~= published_during(
        state,
        first,
    ));
}

/// The state and the results of a run with one more report at its end.
pub proof fn lemma_run_extends(state: CollectorState, reports: Seq<Report>, report: Report)
    ensures
        state_after(state, reports.push(report)) == collector_next(
            state_after(state, reports),
            report.0,
            report.1,
        ).0,
        published_during(state, reports.push(report)) == match collector_next(
            state_after(state, reports),
            report.0,
            report.1,
        ).1 {
            CollectorAction::Publish(tick) => published_during(state, reports).push(tick),
            _ => published_during(state, reports),
        },
{
    assert(reports.push(report).drop_last() =~= reports);
}

/// The reports of a poll whose three fetches succeed and whose result the
/// mailbox takes, with no shutdown signal in sight.
pub open spec fn whole_poll(tick: TickResult) -> Seq<Report> {
    seq![
        (CollectorEvent::TimerElapsed, false),
        (CollectorEvent::QueryLog(Ok(tick.queries)), false),
        (CollectorEvent::Stats(Ok(tick.stats)), false),
        (CollectorEvent::Status(Ok(tick.status)), false),
        (CollectorEvent::Published(true), false),
    ]
}

/// The reports of a poll whose fetch of the statistics fails.
pub open spec fn poll_failing_at_stats(queries: Vec<Query>, failure: FetchFailure) -> Seq<Report> {
    seq![
        (CollectorEvent::TimerElapsed, false),
        (CollectorEvent::QueryLog(Ok(queries)), false),
        (CollectorEvent::Stats(Err(failure)), false),
    ]
}

/// A poll whose three fetches succeed hands out exactly its own result, once,
/// and leaves the collector waiting for the timer again.
pub proof fn lemma_whole_poll(tick: TickResult)
    ensures
        state_after(CollectorState::Idle, whole_poll(tick)) == CollectorState::Idle,
        published_during(CollectorState::Idle, whole_poll(tick)) == seq![tick],
{
    let start = CollectorState::Idle;
    let reports = whole_poll(tick);
    let one = Seq::<Report>::empty().push(reports[0]);
    let two = one.push(reports[1]);
    let three = two.push(reports[2]);
    let four = three.push(reports[3]);
    let five = four.push(reports[4]);
    assert(five =~= reports);
    lemma_run_extends(start, Seq::<Report>::empty(), reports[0]);
    lemma_run_extends(start, one, reports[1]);
    lemma_run_extends(start, two, reports[2]);
    lemma_run_extends(start, three, reports[3]);
    lemma_run_extends(start, four, reports[4]);
    assert(published_during(start, four) =~= seq![tick]);
}

/// A poll whose fetch of the statistics fails hands out nothing and stops the
/// collector with that failure.
pub proof fn lemma_failed_poll(queries: Vec<Query>, failure: FetchFailure)
    ensures
        state_after(CollectorState::Idle, poll_failing_at_stats(queries, failure))
            == CollectorState::Stopped(StopReason::FetchFailed(FetchKind::Stats, failure)),
        published_during(CollectorState::Idle, poll_failing_at_stats(queries, failure))
            == Seq::<TickResult>::empty(),
{
    let start = CollectorState::Idle;
    let reports = poll_failing_at_stats(queries, failure);
    let one = Seq::<Report>::empty().push(reports[0]);
    let two = one.push(reports[1]);
    let three = two.push(reports[2]);
    assert(three =~= reports);
    lemma_run_extends(start, Seq::<Report>::empty(), reports[0]);
    lemma_run_extends(start, one, reports[1]);
    lemma_run_extends(start, two, reports[2]);
}

/// Where the first poll succeeds and the second fails at the statistics, the
/// result of the first poll is the only one ever handed out, whatever is
/// reported afterwards: nothing of the second poll is seen.
pub proof fn lemma_failure_in_second_poll(
    first: TickResult,
    queries: Vec<Query>,
    failure: FetchFailure,
    rest: Seq<Report>,
)
    ensures
        published_during(
            CollectorState::Idle,
            whole_poll(first) + poll_failing_at_stats(queries, failure) + rest,
        ) == seq![first],
        state_after(
            CollectorState::Idle,
            whole_poll(first) + poll_failing_at_stats(queries, failure) + rest,
        ) == CollectorState::Stopped(StopReason::FetchFailed(FetchKind::Stats, failure)),
{
    let start = CollectorState::Idle;
    let polls = whole_poll(first) + poll_failing_at_stats(queries, failure);
    lemma_whole_poll(first);
    lemma_failed_poll(queries, failure);
    lemma_run_splits(start, whole_poll(first), poll_failing_at_stats(queries, failure));
    assert(published_during(start, polls) =~= seq![first]);
    lemma_nothing_after_stop(start, polls, rest);
}

/// Where the shutdown signal is raised when a running collector takes its
/// next step, the collector stops as cancelled, and the results handed out
/// are those from before that step, whatever is reported afterwards. So a
/// signal raised after the third result leaves it at three.
pub proof fn lemma_cancellation(
    state: CollectorState,
    before: Seq<Report>,
    event: CollectorEvent,
    rest: Seq<Report>,
)
    requires
        !state_after(state, before).is_stopped(),
    ensures
        state_after(state, before.push((event, true)) + rest) == CollectorState::Stopped(
            StopReason::Cancelled,
        ),
        published_during(state, before.push((event, true)) + rest) == published_during(
            state,
            before,
        ),
{
    lemma_run_extends(state, before, (event, true));
    lemma_nothing_after_stop(state, before.push((event, true)), rest);
}

} // verus!
