//! The daily birthday run: sleep until the next local midnight, greet the
//! users whose birthday it is, and start again.

use vstd::prelude::*;

verus! {

/// Where the daily run stands.
#[derive(Debug, Clone, PartialEq, Eq)]
pub enum SchedulerState {
    /// Not started.
    Idle,
    /// Sleeping until the next local midnight.
    Waiting,
    /// Greeting today's users.
    Checking,
    /// Stopped for good.
    Halted,
}

/// What the outside world reports.
#[derive(Debug, Clone, PartialEq, Eq)]
pub enum SchedulerEvent {
    /// The run was started.
    Started,
    /// Midnight came.
    Woke,
    /// Today's greetings were sent (`ok`) or failed.
    CheckFinished { ok: bool },
    /// The next local midnight could not be determined (it falls in a
    /// time-zone gap or fold, or the time zone is unknown).
    MidnightUnavailable,
}

/// What is asked of the outside world.
#[derive(Debug, Clone, PartialEq, Eq)]
pub enum SchedulerAction {
    /// Sleep until the next local midnight, first reporting the failure of
    /// the last check when `report_failure`.
    SleepUntilMidnight { report_failure: bool },
    /// Send today's birthday greetings.
    CheckBirthdays,
    /// Stop.
    Halt,
}

/// One step of the daily run. Anything out of order stops it.
pub open spec fn scheduler_spec(s: SchedulerState, e: SchedulerEvent, next: SchedulerState, a: SchedulerAction) -> bool {
    match (s, e) {
        (SchedulerState::Idle, SchedulerEvent::Started) => next == SchedulerState::Waiting
            && a == SchedulerAction::SleepUntilMidnight { report_failure: false },
        (SchedulerState::Waiting, SchedulerEvent::Woke) => next == SchedulerState::Checking && a
            == SchedulerAction::CheckBirthdays,
        (SchedulerState::Checking, SchedulerEvent::CheckFinished { ok }) => next == SchedulerState::Waiting
            && a == SchedulerAction::SleepUntilMidnight { report_failure: !ok },
        _ => next == SchedulerState::Halted && a == SchedulerAction::Halt,
    }
}

/// One step of the daily birthday run.
pub fn birthday_scheduler_step(state: SchedulerState, event: SchedulerEvent) -> (r: (
    SchedulerState,
    SchedulerAction,
))
    ensures
        scheduler_spec(state, event, r.0, r.1),
{
    match (state, event) {
        (SchedulerState::Idle, SchedulerEvent::Started) => (
            SchedulerState::Waiting,
            SchedulerAction::SleepUntilMidnight { report_failure: false },
        ),
        (SchedulerState::Waiting, SchedulerEvent::Woke) => (SchedulerState::Checking, SchedulerAction::CheckBirthdays),
        (SchedulerState::Checking, SchedulerEvent::CheckFinished { ok }) => (
            SchedulerState::Waiting,
            SchedulerAction::SleepUntilMidnight { report_failure: !ok },
        ),
        _ => (SchedulerState::Halted, SchedulerAction::Halt),
    }
}

/// `states`, `events` and `actions` are a run of the daily job from
/// [`SchedulerState::Idle`].
pub open spec fn is_scheduler_run(
    states: Seq<SchedulerState>,
    events: Seq<SchedulerEvent>,
    actions: Seq<SchedulerAction>,
) -> bool {
    &&& states.len() == events.len() + 1
    &&& actions.len() == events.len()
    &&& states[0] == SchedulerState::Idle
    &&& forall|i: int|
        #![trigger events[i]]
        0 <= i < events.len() ==> scheduler_spec(states[i], events[i], states[i + 1], actions[i])
}

/// Greetings are sent at most once per midnight: between two birthday
/// checks the run always sleeps until midnight.
pub proof fn one_check_per_midnight(
    states: Seq<SchedulerState>,
    events: Seq<SchedulerEvent>,
    actions: Seq<SchedulerAction>,
    i: int,
    j: int,
)
    requires
        is_scheduler_run(states, events, actions),
        0 <= i < j < actions.len(),
        actions[i] is CheckBirthdays,
        actions[j] is CheckBirthdays,
    ensures
        i < j - 1,
        actions[j - 1] is SleepUntilMidnight,
{
    assert(scheduler_spec(states[j], events[j], states[j + 1], actions[j]));
    assert(states[j] is Waiting);
    assert(scheduler_spec(states[j - 1], events[j - 1], states[j], actions[j - 1]));
    assert(scheduler_spec(states[i], events[i], states[i + 1], actions[i]));
}

/// Greetings are never sent before the first midnight: every birthday
/// check answers a wake-up at midnight, right after a sleep until midnight.
pub proof fn every_check_follows_a_sleep(
    states: Seq<SchedulerState>,
    events: Seq<SchedulerEvent>,
    actions: Seq<SchedulerAction>,
    j: int,
)
    requires
        is_scheduler_run(states, events, actions),
        0 <= j < actions.len(),
        actions[j] is CheckBirthdays,
    ensures
        j >= 1,
        events[j] == SchedulerEvent::Woke,
        actions[j - 1] is SleepUntilMidnight,
{
    assert(scheduler_spec(states[j], events[j], states[j + 1], actions[j]));
    assert(states[j] is Waiting);
    assert(j != 0);
    assert(scheduler_spec(states[j - 1], events[j - 1], states[j], actions[j - 1]));
}

/// A failed check does not stop the run: it is reported and the run
/// sleeps until the next midnight.
pub proof fn failure_does_not_stop(s: SchedulerState, e: SchedulerEvent, next: SchedulerState, a: SchedulerAction)
    requires
        scheduler_spec(s, e, next, a),
        s is Checking,
        e == (SchedulerEvent::CheckFinished { ok: false }),
    ensures
        next is Waiting,
        a == (SchedulerAction::SleepUntilMidnight { report_failure: true }),
{
}

} // verus!
