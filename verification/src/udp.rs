//! The UDP relay session of one mapping: a single datagram socket that
//! relays between the fixed destination and one client, which it learns from
//! the first datagram that does not come from the destination.
//!
//! The session decides; its caller owns the socket. The caller performs the
//! action that the session hands out and reports what came of it as the next
//! event.

use crate::address::SocketAddress;
use crate::error::EngineError;
use vstd::prelude::*;

verus! {

/// Size of the receive buffer: the largest datagram that one receive call
/// delivers.
pub const DATAGRAM_BUFFER: usize = 65535;

/// Where a session stands.
#[derive(Debug, Clone, Copy, PartialEq, Eq)]
pub enum SessionState {
    /// The socket is not bound yet.
    Unbound,
    /// The socket is bound and does not carry the priority yet.
    Untagged,
    /// Ready; no client has spoken yet.
    AwaitingClient,
    /// Relaying between the destination and `client`.
    Relaying { client: SocketAddress },
    /// Over, cleanly or with an error.
    Ended { outcome: Result<(), EngineError> },
}

/// What the caller reports to the session.
#[derive(Debug, Clone, Copy, PartialEq, Eq)]
pub enum UdpEvent {
    /// The socket was bound.
    Bound,
    /// The socket could not be bound.
    BindFailed,
    /// The priority was set on the socket.
    PriorityApplied,
    /// The priority could not be set on the socket.
    PriorityFailed,
    /// A datagram of `len` bytes arrived from `from`.
    Datagram { from: SocketAddress, len: usize },
    /// Receiving or sending failed.
    SocketFailed,
}

/// What the session asks of the caller.
#[derive(Debug, Clone, Copy, PartialEq, Eq)]
pub enum UdpAction {
    /// Bind the socket.
    Bind,
    /// Set the traffic priority `value` on the socket.
    ApplyPriority { value: i32 },
    /// Wait for the next datagram.
    Receive,
    /// Send the `len` bytes just received to `to`, then wait for the next
    /// datagram.
    Forward { to: SocketAddress, len: usize },
    /// Return from the engine with `outcome`.
    Finish { outcome: Result<(), EngineError> },
}

/// The relay session of one UDP mapping.
#[derive(Debug, Clone, Copy, PartialEq, Eq)]
pub struct UdpSession {
    /// Where the client's datagrams go; fixed for the life of the session.
    pub destination: SocketAddress,
    /// The traffic priority of the socket.
    pub priority: u8,
    pub state: SessionState,
}

/// The action that a session in `state` waits for the outcome of.
pub open spec fn udp_pending(priority: u8, state: SessionState) -> UdpAction {
    match state {
        SessionState::Unbound => UdpAction::Bind,
        SessionState::Untagged => UdpAction::ApplyPriority { value: priority as i32 },
        SessionState::AwaitingClient => UdpAction::Receive,
        SessionState::Relaying { client } => UdpAction::Receive,
        SessionState::Ended { outcome } => UdpAction::Finish { outcome },
    }
}

/// The state after `event`, and the action to perform next. An event that
/// the state does not wait for changes nothing and repeats the pending
/// action.
pub open spec fn udp_step(s: UdpSession, event: UdpEvent) -> (UdpSession, UdpAction) {
    let next = match (s.state, event) {
        (SessionState::Unbound, UdpEvent::Bound) => SessionState::Untagged,
        (SessionState::Unbound, UdpEvent::BindFailed) => SessionState::Ended {
            outcome: Err(EngineError::Bind),
        },
        (SessionState::Untagged, UdpEvent::PriorityApplied) => SessionState::AwaitingClient,
        (SessionState::Untagged, UdpEvent::PriorityFailed) => SessionState::Ended {
            outcome: Err(EngineError::SocketOption),
        },
        (SessionState::AwaitingClient, UdpEvent::Datagram { from, len }) => if len == 0 {
            SessionState::Ended { outcome: Ok(()) }
        } else if from != s.destination {
            SessionState::Relaying { client: from }
        } else {
            s.state
        },
        (SessionState::Relaying { client }, UdpEvent::Datagram { from, len }) => if len == 0 {
            SessionState::Ended { outcome: Ok(()) }
        } else {
            s.state
        },
        (SessionState::AwaitingClient, UdpEvent::SocketFailed) => SessionState::Ended {
            outcome: Err(EngineError::Io),
        },
        (SessionState::Relaying { client }, UdpEvent::SocketFailed) => SessionState::Ended {
            outcome: Err(EngineError::Io),
        },
        _ => s.state,
    };
    let action = match (s.state, event) {
        (SessionState::AwaitingClient, UdpEvent::Datagram { from, len }) => if len != 0 && from
            != s.destination {
            UdpAction::Forward { to: s.destination, len }
        } else {
            udp_pending(s.priority, next)
        },
        (SessionState::Relaying { client }, UdpEvent::Datagram { from, len }) => if len == 0 {
            udp_pending(s.priority, next)
        } else if from == s.destination {
            UdpAction::Forward { to: client, len }
        } else if from == client {
            UdpAction::Forward { to: s.destination, len }
        } else {
            UdpAction::Receive
        },
        _ => udp_pending(s.priority, next),
    };
    (UdpSession { destination: s.destination, priority: s.priority, state: next }, action)
}

impl UdpSession {
    /// A session that has not bound its socket yet.
    pub fn new(destination: SocketAddress, priority: u8) -> (s: UdpSession)
        ensures
            s == (UdpSession { destination, priority, state: SessionState::Unbound }),
    {
        UdpSession { destination, priority, state: SessionState::Unbound }
    }

    /// The action that the session waits for the outcome of; for a new
    /// session, the first thing to do.
    pub fn pending(&self) -> (action: UdpAction)
        ensures
            action == udp_pending(self.priority, self.state),
    {
        match self.state {
            SessionState::Unbound => UdpAction::Bind,
            SessionState::Untagged => UdpAction::ApplyPriority { value: self.priority as i32 },
            SessionState::AwaitingClient => UdpAction::Receive,
            SessionState::Relaying { client } => UdpAction::Receive,
            SessionState::Ended { outcome } => UdpAction::Finish { outcome },
        }
    }

    /// Takes in `event` and says what to do next.
    pub fn step(&mut self, event: UdpEvent) -> (action: UdpAction)
        ensures
            (*final(self), action) == udp_step(*old(self), event),
    {
        match (self.state, event) {
            (SessionState::Unbound, UdpEvent::Bound) => {
                self.state = SessionState::Untagged;
            },
            (SessionState::Unbound, UdpEvent::BindFailed) => {
                self.state = SessionState::Ended { outcome: Err(EngineError::Bind) };
            },
            (SessionState::Untagged, UdpEvent::PriorityApplied) => {
                self.state = SessionState::AwaitingClient;
            },
            (SessionState::Untagged, UdpEvent::PriorityFailed) => {
                self.state = SessionState::Ended { outcome: Err(EngineError::SocketOption) };
            },
            (SessionState::AwaitingClient, UdpEvent::Datagram { from, len }) => {
                if len == 0 {
                    self.state = SessionState::Ended { outcome: Ok(()) };
                } else if from != self.destination {
                    self.state = SessionState::Relaying { client: from };
                    return UdpAction::Forward { to: self.destination, len };
                }
            },
            (SessionState::Relaying { client }, UdpEvent::Datagram { from, len }) => {
                if len == 0 {
                    self.state = SessionState::Ended { outcome: Ok(()) };
                } else if from == self.destination {
                    return UdpAction::Forward { to: client, len };
                } else if from == client {
                    return UdpAction::Forward { to: self.destination, len };
                }
            },
            (SessionState::AwaitingClient, UdpEvent::SocketFailed) => {
                self.state = SessionState::Ended { outcome: Err(EngineError::Io) };
            },
            (SessionState::Relaying { client }, UdpEvent::SocketFailed) => {
                self.state = SessionState::Ended { outcome: Err(EngineError::Io) };
            },
            _ => {},
        }
        self.pending()
    }
}

/// The session after a run of events, oldest first.
pub open spec fn udp_run(s: UdpSession, events: Seq<UdpEvent>) -> UdpSession
    decreases events.len(),
{
    if events.len() == 0 {
        s
    } else {
        udp_step(udp_run(s, events.drop_last()), events.last()).0
    }
}

/// The session can receive and forward datagrams.
pub open spec fn udp_ready(s: UdpSession) -> bool {
    s.state is AwaitingClient || s.state is Relaying
}

/// Event `j` of `events` is the acknowledgement of the priority, given to a
/// session that was bound and waiting for just that.
pub open spec fn priority_applied_at(s: UdpSession, events: Seq<UdpEvent>, j: int) -> bool {
    0 <= j < events.len() && events[j] is PriorityApplied && udp_run(s, events.take(j)).state
        is Untagged
}

/// The first datagram of a client, that is of any sender but the
/// destination, is forwarded to the destination and fixes that sender as the
/// client. A later datagram from a third address is not forwarded to anyone
/// and leaves the session as it was.
pub proof fn law_client_learning(
    s: UdpSession,
    client: SocketAddress,
    len: usize,
    stranger: SocketAddress,
    stranger_len: usize,
)
    requires
        s.state is AwaitingClient,
        client != s.destination,
        stranger != s.destination,
        stranger != client,
        len > 0,
        stranger_len > 0,
    ensures
        ({
            let (learned, first) = udp_step(s, UdpEvent::Datagram { from: client, len });
            let (after, second) = udp_step(
                learned,
                UdpEvent::Datagram { from: stranger, len: stranger_len },
            );
            &&& learned.state == SessionState::Relaying { client }
            &&& first == UdpAction::Forward { to: s.destination, len }
            &&& after == learned
            &&& second == UdpAction::Receive
        }),
{
}

/// A datagram from the destination that arrives before any client has spoken
/// is discarded: the session keeps waiting for a client.
pub proof fn law_early_destination_datagram(s: UdpSession, len: usize)
    requires
        s.state is AwaitingClient,
        len > 0,
    ensures
        udp_step(s, UdpEvent::Datagram { from: s.destination, len }) == (s, UdpAction::Receive),
{
}

/// Once a client is learned, nothing that happens replaces it: after any run
/// of events the session still relays for that client, or is over.
pub proof fn law_client_is_fixed(s: UdpSession, events: Seq<UdpEvent>)
    requires
        s.state is Relaying,
    ensures
        udp_run(s, events).state == s.state || udp_run(s, events).state is Ended,
        udp_run(s, events).destination == s.destination,
    decreases events.len(),
{
    if events.len() > 0 {
        law_client_is_fixed(s, events.drop_last());
    }
}

/// Between the client and the destination every datagram that is not empty
/// crosses over: what the client sends goes to the destination, what the
/// destination sends goes to the client, with its length.
pub proof fn law_relay_crosses_over(s: UdpSession, len: usize)
    requires
        s.state is Relaying,
        len > 0,
    ensures
        udp_step(s, UdpEvent::Datagram { from: s.state->client, len }) == (
            s,
            UdpAction::Forward { to: s.destination, len },
        ),
        udp_step(s, UdpEvent::Datagram { from: s.destination, len }) == (
            s,
            UdpAction::Forward { to: s.state->client, len },
        ),
{
}

/// An empty datagram, whoever sent it, ends a session that is waiting for a
/// client or relaying: the engine returns cleanly, and stays over.
pub proof fn law_empty_datagram_ends_session(s: UdpSession, from: SocketAddress, later: UdpEvent)
    requires
        udp_ready(s),
    ensures
        ({
            let (ended, action) = udp_step(s, UdpEvent::Datagram { from, len: 0 });
            &&& ended.state == SessionState::Ended { outcome: Ok::<(), EngineError>(()) }
            &&& action == UdpAction::Finish { outcome: Ok::<(), EngineError>(()) }
            &&& udp_step(ended, later) == (ended, action)
        }),
{
}

/// A session is ready only after the priority was applied to its socket.
proof fn lemma_ready_was_tagged(s: UdpSession, events: Seq<UdpEvent>)
    requires
        s.state is Unbound,
        udp_ready(udp_run(s, events)),
    ensures
        exists|j: int| priority_applied_at(s, events, j),
    decreases events.len(),
{
    if events.len() > 0 {
        let earlier = events.drop_last();
        if udp_ready(udp_run(s, earlier)) {
            lemma_ready_was_tagged(s, earlier);
            let j = choose|j: int| priority_applied_at(s, earlier, j);
            assert(events.take(j) == earlier.take(j));
            assert(priority_applied_at(s, events, j));
        } else {
            let j = events.len() - 1;
            assert(events.take(j) == earlier);
            assert(priority_applied_at(s, events, j));
        }
    }
}

/// The priority comes before any payload. Whenever a session that started
/// unbound asks to receive or to forward a datagram, an earlier event, or the
/// one that it is answering, acknowledged the priority that the session had
/// asked to be set, which is the priority it was made with.
pub proof fn law_priority_precedes_payload(s: UdpSession, events: Seq<UdpEvent>)
    requires
        s.state is Unbound,
        events.len() > 0,
        ({
            let action = udp_step(udp_run(s, events.drop_last()), events.last()).1;
            action is Receive || action is Forward
        }),
    ensures
        exists|j: int|
            priority_applied_at(s, events, j) && udp_pending(
                s.priority,
                udp_run(s, events.take(j)).state,
            ) == (UdpAction::ApplyPriority { value: s.priority as i32 }),
{
    assert(udp_ready(udp_run(s, events)));
    lemma_ready_was_tagged(s, events);
}

} // verus!
