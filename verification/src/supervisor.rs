//! The supervisor of one mapping: it runs the engine of the mapping and,
//! whenever the engine fails, runs it again after a fixed delay, as often as
//! it takes. Only an engine that returns cleanly ends the supervisor.
//!
//! The supervisor decides and never reads a clock: its caller says what time
//! it is with every event, in milliseconds on any clock that does not run
//! backwards.

use crate::config::Mapping;
use crate::error::EngineError;
use vstd::prelude::*;

verus! {

/// The delay between a failure of the engine and its next run, in
/// milliseconds.
pub const BACKOFF_MILLIS: u64 = 3000;

/// Where a supervisor stands.
#[derive(Debug, Clone, Copy, PartialEq, Eq)]
pub enum SupervisorState {
    /// The engine has not run yet.
    Starting,
    /// The engine runs.
    Running,
    /// The engine failed at time `since`; the delay runs.
    BackingOff { since: u64 },
    /// The engine returned cleanly; the supervisor is done.
    Stopped,
}

/// What the caller reports to the supervisor.
#[derive(Debug, Clone, Copy, PartialEq, Eq)]
pub enum SupervisorEvent {
    /// Nothing happened but time.
    Tick,
    /// The engine returned.
    EngineExited { outcome: Result<(), EngineError> },
}

/// What the supervisor asks of the caller.
#[derive(Debug, Clone, Copy, PartialEq, Eq)]
pub enum SupervisorAction {
    /// Run the engine of `mapping` and report how it returns.
    Launch { mapping: Mapping },
    /// The engine runs: wait for it to return.
    AwaitEngine,
    /// The engine failed with `error`: log it, and come back in `millis`
    /// milliseconds.
    Report { error: EngineError, millis: u64 },
    /// The delay still runs: come back in `millis` milliseconds.
    Wait { millis: u64 },
    /// The supervisor is done.
    Stop,
}

/// The supervisor of one mapping.
#[derive(Debug, Clone, Copy, PartialEq, Eq)]
pub struct Supervisor {
    pub mapping: Mapping,
    pub state: SupervisorState,
}

/// The time that has passed since `since`, as far as the delay is concerned:
/// never more than the delay, and nothing where the clock reads less than
/// `since`.
pub open spec fn elapsed(since: u64, now: u64) -> int {
    if now < since {
        0
    } else if now - since >= BACKOFF_MILLIS {
        BACKOFF_MILLIS as int
    } else {
        now - since
    }
}

/// The supervisor after `event` at time `now`, and the action to perform.
pub open spec fn supervisor_step(s: Supervisor, event: SupervisorEvent, now: u64) -> (
    Supervisor,
    SupervisorAction,
) {
    match s.state {
        SupervisorState::Starting => (
            Supervisor { state: SupervisorState::Running, ..s },
            SupervisorAction::Launch { mapping: s.mapping },
        ),
        SupervisorState::Running => match event {
            SupervisorEvent::Tick => (s, SupervisorAction::AwaitEngine),
            SupervisorEvent::EngineExited { outcome } => match outcome {
                Ok(_) => (
                    Supervisor { state: SupervisorState::Stopped, ..s },
                    SupervisorAction::Stop,
                ),
                Err(error) => (
                    Supervisor { state: SupervisorState::BackingOff { since: now }, ..s },
                    SupervisorAction::Report { error, millis: BACKOFF_MILLIS },
                ),
            },
        },
        SupervisorState::BackingOff { since } => if event is Tick && elapsed(since, now)
            == BACKOFF_MILLIS {
            (
                Supervisor { state: SupervisorState::Running, ..s },
                SupervisorAction::Launch { mapping: s.mapping },
            )
        } else {
            (s, SupervisorAction::Wait { millis: (BACKOFF_MILLIS - elapsed(since, now)) as u64 })
        },
        SupervisorState::Stopped => (s, SupervisorAction::Stop),
    }
}

impl Supervisor {
    /// A supervisor whose engine has not run yet.
    pub fn new(mapping: Mapping) -> (s: Supervisor)
        ensures
            s == (Supervisor { mapping, state: SupervisorState::Starting }),
    {
        Supervisor { mapping, state: SupervisorState::Starting }
    }

    /// Takes in `event`, which happened at time `now`, and says what to do.
    pub fn step(&mut self, event: SupervisorEvent, now: u64) -> (action: SupervisorAction)
        ensures
            (*final(self), action) == supervisor_step(*old(self), event, now),
    {
        match self.state {
            SupervisorState::Starting => {
                self.state = SupervisorState::Running;
                SupervisorAction::Launch { mapping: self.mapping }
            },
            SupervisorState::Running => match event {
                SupervisorEvent::Tick => SupervisorAction::AwaitEngine,
                SupervisorEvent::EngineExited { outcome } => match outcome {
                    Ok(_) => {
                        self.state = SupervisorState::Stopped;
                        SupervisorAction::Stop
                    },
                    Err(error) => {
                        self.state = SupervisorState::BackingOff { since: now };
                        SupervisorAction::Report { error, millis: BACKOFF_MILLIS }
                    },
                },
            },
            SupervisorState::BackingOff { since } => {
                let passed: u64 = if now < since {
                    0
                } else if now - since >= BACKOFF_MILLIS {
                    BACKOFF_MILLIS
                } else {
                    now - since
                };
                let ticking = match event {
                    SupervisorEvent::Tick => true,
                    SupervisorEvent::EngineExited { outcome } => false,
                };
                if ticking && passed == BACKOFF_MILLIS {
                    self.state = SupervisorState::Running;
                    SupervisorAction::Launch { mapping: self.mapping }
                } else {
                    SupervisorAction::Wait { millis: BACKOFF_MILLIS - passed }
                }
            },
            SupervisorState::Stopped => SupervisorAction::Stop,
        }
    }
}

/// One failure of the engine: when it happened and what it was.
pub struct Failure {
    pub at: u64,
    pub error: EngineError,
}

/// The supervisor after its engine failed once for each entry of
/// `failures`, oldest first, and the delay ran out after each.
pub open spec fn after_failures(s: Supervisor, failures: Seq<Failure>) -> Supervisor
    decreases failures.len(),
{
    if failures.len() == 0 {
        s
    } else {
        let before = after_failures(s, failures.drop_last());
        let last = failures.last();
        let failed = supervisor_step(
            before,
            SupervisorEvent::EngineExited { outcome: Err(last.error) },
            last.at,
        ).0;
        supervisor_step(failed, SupervisorEvent::Tick, (last.at + BACKOFF_MILLIS) as u64).0
    }
}

/// A new supervisor launches the engine of its mapping at once.
pub proof fn law_engine_is_launched(s: Supervisor, event: SupervisorEvent, now: u64)
    requires
        s.state is Starting,
    ensures
        supervisor_step(s, event, now) == (
            Supervisor { mapping: s.mapping, state: SupervisorState::Running },
            SupervisorAction::Launch { mapping: s.mapping },
        ),
{
}

/// An engine that returns cleanly ends the supervisor, which then stays
/// stopped whatever is reported to it.
pub proof fn law_clean_exit_stops(
    s: Supervisor,
    now: u64,
    later: SupervisorEvent,
    later_time: u64,
)
    requires
        s.state is Running,
    ensures
        ({
            let (stopped, action) = supervisor_step(
                s,
                SupervisorEvent::EngineExited { outcome: Ok(()) },
                now,
            );
            &&& stopped.state is Stopped
            &&& action is Stop
            &&& supervisor_step(stopped, later, later_time) == (stopped, action)
        }),
{
}

/// A failure is reported and waited out, and then the same engine runs
/// again. Until the delay has passed in full the supervisor only waits, for
/// what is left of the delay; the first tick after it launches the engine of
/// the same mapping.
pub proof fn law_failure_is_retried(s: Supervisor, error: EngineError, at: u64, now: u64)
    requires
        s.state is Running,
        at <= now,
    ensures
        ({
            let (failed, report) = supervisor_step(
                s,
                SupervisorEvent::EngineExited { outcome: Err(error) },
                at,
            );
            let (next, action) = supervisor_step(failed, SupervisorEvent::Tick, now);
            &&& failed.state == SupervisorState::BackingOff { since: at }
            &&& report == SupervisorAction::Report { error, millis: BACKOFF_MILLIS }
            &&& now - at < BACKOFF_MILLIS ==> next == failed && action == (SupervisorAction::Wait {
                millis: (BACKOFF_MILLIS - (now - at)) as u64,
            })
            &&& now - at >= BACKOFF_MILLIS ==> next.state is Running && action == (
            SupervisorAction::Launch { mapping: s.mapping })
        }),
{
}

/// The supervisor never gives up: after any number of failures, each waited
/// out, the engine of the same mapping runs again.
pub proof fn law_never_gives_up(s: Supervisor, failures: Seq<Failure>)
    requires
        s.state is Running,
        forall|i: int| 0 <= i < failures.len() ==> failures[i].at + BACKOFF_MILLIS <= u64::MAX,
    ensures
        after_failures(s, failures) == s,
    decreases failures.len(),
{
    if failures.len() > 0 {
        law_never_gives_up(s, failures.drop_last());
    }
}

} // verus!
