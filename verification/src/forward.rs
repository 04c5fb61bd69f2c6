//! The forwarding of one accepted TCP client: connect to the destination,
//! set the traffic priority on that socket, then copy in both directions
//! until one of them ends.
//!
//! The forwarding decides; its caller owns the two sockets and reports what
//! came of each action as the next event.

use crate::error::EngineError;
use vstd::prelude::*;

verus! {

/// Where a forwarding stands.
#[derive(Debug, Clone, Copy, PartialEq, Eq)]
pub enum ForwardState {
    /// The destination is not connected yet.
    Connecting,
    /// The destination is connected; its socket does not carry the priority
    /// yet.
    Untagged,
    /// Both directions are being copied.
    Relaying,
    /// Over, cleanly or with an error.
    Closed { outcome: Result<(), EngineError> },
}

/// One of the two directions of a connection.
#[derive(Debug, Clone, Copy, PartialEq, Eq, Hash, Structural)]
pub enum Direction {
    ClientToDestination,
    DestinationToClient,
}

/// What the caller reports to the forwarding.
#[derive(Debug, Clone, Copy, PartialEq, Eq)]
pub enum ForwardEvent {
    /// The destination was reached.
    Connected,
    /// The destination could not be reached.
    ConnectFailed,
    /// The priority was set on the destination-facing socket.
    PriorityApplied,
    /// The priority could not be set.
    PriorityFailed,
    /// Copying in `direction` ended: at the end of the stream, or, where
    /// `failed` holds, with an error.
    DirectionEnded { direction: Direction, failed: bool },
}

/// What the forwarding asks of the caller.
#[derive(Debug, Clone, Copy, PartialEq, Eq)]
pub enum ForwardAction {
    /// Connect to the destination.
    Connect,
    /// Set the traffic priority `value` on the destination-facing socket.
    ApplyPriority { value: i32 },
    /// Copy in both directions at once, until the first of them ends.
    Relay,
    /// Stop copying in either direction, close both sockets and report
    /// `outcome`.
    Close { outcome: Result<(), EngineError> },
}

/// The forwarding of one accepted client.
#[derive(Debug, Clone, Copy, PartialEq, Eq)]
pub struct Forwarding {
    /// The traffic priority of the destination-facing socket.
    pub priority: u8,
    pub state: ForwardState,
}

/// The action that a forwarding in `state` waits for the outcome of.
pub open spec fn forward_pending(priority: u8, state: ForwardState) -> ForwardAction {
    match state {
        ForwardState::Connecting => ForwardAction::Connect,
        ForwardState::Untagged => ForwardAction::ApplyPriority { value: priority as i32 },
        ForwardState::Relaying => ForwardAction::Relay,
        ForwardState::Closed { outcome } => ForwardAction::Close { outcome },
    }
}

/// The state that follows `state` on `event`. An event that the state does
/// not wait for changes nothing.
pub open spec fn forward_next(state: ForwardState, event: ForwardEvent) -> ForwardState {
    match (state, event) {
        (ForwardState::Connecting, ForwardEvent::Connected) => ForwardState::Untagged,
        (ForwardState::Connecting, ForwardEvent::ConnectFailed) => ForwardState::Closed {
            outcome: Err(EngineError::Connect),
        },
        (ForwardState::Untagged, ForwardEvent::PriorityApplied) => ForwardState::Relaying,
        (ForwardState::Untagged, ForwardEvent::PriorityFailed) => ForwardState::Closed {
            outcome: Err(EngineError::SocketOption),
        },
        (ForwardState::Relaying, ForwardEvent::DirectionEnded { direction, failed }) => if failed {
            ForwardState::Closed { outcome: Err(EngineError::Io) }
        } else {
            ForwardState::Closed { outcome: Ok(()) }
        },
        _ => state,
    }
}

/// The forwarding after `event`, and the action to perform next.
pub open spec fn forward_step(f: Forwarding, event: ForwardEvent) -> (Forwarding, ForwardAction) {
    let next = forward_next(f.state, event);
    (Forwarding { priority: f.priority, state: next }, forward_pending(f.priority, next))
}

impl Forwarding {
    /// A forwarding that has not connected yet.
    pub fn new(priority: u8) -> (f: Forwarding)
        ensures
            f == (Forwarding { priority, state: ForwardState::Connecting }),
    {
        Forwarding { priority, state: ForwardState::Connecting }
    }

    /// The action that the forwarding waits for the outcome of; for a new
    /// forwarding, the first thing to do.
    pub fn pending(&self) -> (action: ForwardAction)
        ensures
            action == forward_pending(self.priority, self.state),
    {
        match self.state {
            ForwardState::Connecting => ForwardAction::Connect,
            ForwardState::Untagged => ForwardAction::ApplyPriority { value: self.priority as i32 },
            ForwardState::Relaying => ForwardAction::Relay,
            ForwardState::Closed { outcome } => ForwardAction::Close { outcome },
        }
    }

    /// Takes in `event` and says what to do next.
    pub fn step(&mut self, event: ForwardEvent) -> (action: ForwardAction)
        ensures
            (*final(self), action) == forward_step(*old(self), event),
    {
        match (self.state, event) {
            (ForwardState::Connecting, ForwardEvent::Connected) => {
                self.state = ForwardState::Untagged;
            },
            (ForwardState::Connecting, ForwardEvent::ConnectFailed) => {
                self.state = ForwardState::Closed { outcome: Err(EngineError::Connect) };
            },
            (ForwardState::Untagged, ForwardEvent::PriorityApplied) => {
                self.state = ForwardState::Relaying;
            },
            (ForwardState::Untagged, ForwardEvent::PriorityFailed) => {
                self.state = ForwardState::Closed { outcome: Err(EngineError::SocketOption) };
            },
            (ForwardState::Relaying, ForwardEvent::DirectionEnded { direction, failed }) => {
                if failed {
                    self.state = ForwardState::Closed { outcome: Err(EngineError::Io) };
                } else {
                    self.state = ForwardState::Closed { outcome: Ok(()) };
                }
            },
            _ => {},
        }
        self.pending()
    }
}

/// The forwarding after a run of events, oldest first.
pub open spec fn forward_run(f: Forwarding, events: Seq<ForwardEvent>) -> Forwarding
    decreases events.len(),
{
    if events.len() == 0 {
        f
    } else {
        forward_step(forward_run(f, events.drop_last()), events.last()).0
    }
}

/// Event `j` of `events` is the acknowledgement of the priority, given to a
/// forwarding that was connected and waiting for just that.
pub open spec fn tagged_at(f: Forwarding, events: Seq<ForwardEvent>, j: int) -> bool {
    0 <= j < events.len() && events[j] is PriorityApplied && forward_run(f, events.take(j)).state
        is Untagged
}

/// An unreachable destination ends the connection with a connect error and
/// nothing is ever copied: the forwarding is closed and stays closed.
pub proof fn law_unreachable_destination(f: Forwarding, later: Seq<ForwardEvent>)
    requires
        f.state is Connecting,
    ensures
        forward_step(f, ForwardEvent::ConnectFailed).1 == (ForwardAction::Close {
            outcome: Err(EngineError::Connect),
        }),
        forward_run(forward_step(f, ForwardEvent::ConnectFailed).0, later) == forward_step(
            f,
            ForwardEvent::ConnectFailed,
        ).0,
    decreases later.len(),
{
    if later.len() > 0 {
        law_unreachable_destination(f, later.drop_last());
    }
}

/// A priority that cannot be set ends the connection before anything is
/// copied.
pub proof fn law_priority_failure_closes(f: Forwarding)
    requires
        f.state is Untagged,
    ensures
        forward_step(f, ForwardEvent::PriorityFailed) == (
            Forwarding {
                priority: f.priority,
                state: ForwardState::Closed { outcome: Err(EngineError::SocketOption) },
            },
            ForwardAction::Close { outcome: Err(EngineError::SocketOption) },
        ),
{
}

/// The first direction to end, ends the connection: cleanly at the end of a
/// stream, with an I/O error otherwise. The other direction is stopped, and
/// what it reports afterwards changes nothing.
pub proof fn law_first_end_closes(
    f: Forwarding,
    direction: Direction,
    failed: bool,
    later: ForwardEvent,
)
    requires
        f.state is Relaying,
    ensures
        ({
            let outcome = if failed {
                Err(EngineError::Io)
            } else {
                Ok(())
            };
            let (closed, action) = forward_step(
                f,
                ForwardEvent::DirectionEnded { direction, failed },
            );
            &&& closed.state == ForwardState::Closed { outcome }
            &&& action == ForwardAction::Close { outcome }
            &&& forward_step(closed, later) == (closed, action)
        }),
{
}

/// A forwarding relays only after the priority was applied.
proof fn lemma_relaying_was_tagged(f: Forwarding, events: Seq<ForwardEvent>)
    requires
        f.state is Connecting,
        forward_run(f, events).state is Relaying,
    ensures
        exists|j: int| tagged_at(f, events, j),
    decreases events.len(),
{
    if events.len() > 0 {
        let earlier = events.drop_last();
        if forward_run(f, earlier).state is Relaying {
            lemma_relaying_was_tagged(f, earlier);
            let j = choose|j: int| tagged_at(f, earlier, j);
            assert(events.take(j) == earlier.take(j));
            assert(tagged_at(f, events, j));
        } else {
            let j = events.len() - 1;
            assert(events.take(j) == earlier);
            assert(tagged_at(f, events, j));
        }
    }
}

/// The priority comes before any payload. Whenever a forwarding that started
/// unconnected asks for bytes to be copied, one of the events so far
/// acknowledged the priority that the forwarding had asked to be set on the
/// destination-facing socket, which is the priority it was made with.
pub proof fn law_priority_precedes_payload(f: Forwarding, events: Seq<ForwardEvent>)
    requires
        f.state is Connecting,
        events.len() > 0,
        forward_step(forward_run(f, events.drop_last()), events.last()).1 is Relay,
    ensures
        exists|j: int|
            tagged_at(f, events, j) && forward_pending(
                f.priority,
                forward_run(f, events.take(j)).state,
            ) == (ForwardAction::ApplyPriority { value: f.priority as i32 }),
{
    assert(forward_run(f, events).state is Relaying);
    lemma_relaying_was_tagged(f, events);
}

} // verus!
