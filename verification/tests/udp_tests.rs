use port_relay::address::SocketAddress;
use port_relay::config::Mapping;
use port_relay::error::EngineError;
use port_relay::udp::{SessionState, UdpAction, UdpEvent, UdpSession, DATAGRAM_BUFFER};

fn at(port: u16) -> SocketAddress {
    SocketAddress::V4 { ipv4: 0x7F00_0001, port }
}

fn datagram(from: SocketAddress, len: usize) -> UdpEvent {
    UdpEvent::Datagram { from, len }
}

fn ready(destination: SocketAddress, priority: u8) -> UdpSession {
    let mut session = UdpSession::new(destination, priority);
    assert_eq!(session.pending(), UdpAction::Bind);
    assert_eq!(session.step(UdpEvent::Bound), UdpAction::ApplyPriority { value: priority as i32 });
    assert_eq!(session.step(UdpEvent::PriorityApplied), UdpAction::Receive);
    session
}

#[test]
fn session_binds_then_tags_then_receives() {
    let session = ready(at(9101), 200);
    assert_eq!(session.state, SessionState::AwaitingClient);
    assert_eq!(session.pending(), UdpAction::Receive);
}

#[test]
fn bind_failure_ends_the_session() {
    let mut session = UdpSession::new(at(9101), 0);
    let failed = UdpAction::Finish { outcome: Err(EngineError::Bind) };
    assert_eq!(session.step(UdpEvent::BindFailed), failed);
    assert_eq!(session.step(UdpEvent::Bound), failed);
    assert_eq!(session.state, SessionState::Ended { outcome: Err(EngineError::Bind) });
}

#[test]
fn priority_failure_ends_the_session() {
    let mut session = UdpSession::new(at(9101), 9);
    session.step(UdpEvent::Bound);
    assert_eq!(
        session.step(UdpEvent::PriorityFailed),
        UdpAction::Finish { outcome: Err(EngineError::SocketOption) }
    );
}

#[test]
fn no_datagram_is_taken_before_the_priority_is_set() {
    let mut session = UdpSession::new(at(9101), 9);
    assert_eq!(session.step(datagram(at(5000), 4)), UdpAction::Bind);
    assert_eq!(session.state, SessionState::Unbound);
    session.step(UdpEvent::Bound);
    assert_eq!(session.step(datagram(at(5000), 4)), UdpAction::ApplyPriority { value: 9 });
    assert_eq!(session.state, SessionState::Untagged);
}

#[test]
fn first_sender_becomes_the_client() {
    let mut session = ready(at(9101), 0);
    assert_eq!(session.step(datagram(at(5000), 4)), UdpAction::Forward { to: at(9101), len: 4 });
    assert_eq!(session.state, SessionState::Relaying { client: at(5000) });
}

#[test]
fn early_destination_datagram_is_discarded() {
    let mut session = ready(at(9101), 0);
    assert_eq!(session.step(datagram(at(9101), 8)), UdpAction::Receive);
    assert_eq!(session.state, SessionState::AwaitingClient);
    assert_eq!(session.step(datagram(at(5000), 4)), UdpAction::Forward { to: at(9101), len: 4 });
}

#[test]
fn stranger_is_dropped_and_client_is_kept() {
    let mut session = ready(at(9101), 0);
    session.step(datagram(at(5000), 4));
    assert_eq!(session.step(datagram(at(6000), 10)), UdpAction::Receive);
    assert_eq!(session.state, SessionState::Relaying { client: at(5000) });
    assert_eq!(session.step(datagram(at(9101), 3)), UdpAction::Forward { to: at(5000), len: 3 });
}

#[test]
fn same_host_other_port_is_a_stranger() {
    let mut session = ready(at(9101), 0);
    session.step(datagram(at(5000), 4));
    assert_eq!(session.step(datagram(at(5001), 4)), UdpAction::Receive);
    let v6 = SocketAddress::V6 { ipv6: 0x7F00_0001, port: 5000, flowinfo: 0, scope_id: 0 };
    assert_eq!(session.step(datagram(v6, 4)), UdpAction::Receive);
}

#[test]
fn echo_reaches_only_the_first_client() {
    let mapping = Mapping::from_str("udp | 0 | 127.0.0.1:9100 -> 127.0.0.1:9101").unwrap();
    let client = at(40000);
    let other = at(40001);
    let mut session = ready(mapping.dst, mapping.priority);
    let ping = "ping".len();
    assert_eq!(
        session.step(datagram(client, ping)),
        UdpAction::Forward { to: at(9101), len: ping }
    );
    assert_eq!(
        session.step(datagram(mapping.dst, ping)),
        UdpAction::Forward { to: client, len: ping }
    );
    assert_eq!(session.step(datagram(other, ping)), UdpAction::Receive);
    assert_eq!(
        session.step(datagram(mapping.dst, ping)),
        UdpAction::Forward { to: client, len: ping }
    );
}

#[test]
fn empty_datagram_ends_the_session_cleanly() {
    let done = UdpAction::Finish { outcome: Ok(()) };
    let mut waiting = ready(at(9101), 0);
    assert_eq!(waiting.step(datagram(at(5000), 0)), done);

    let mut from_client = ready(at(9101), 0);
    from_client.step(datagram(at(5000), 4));
    assert_eq!(from_client.step(datagram(at(5000), 0)), done);

    let mut from_destination = ready(at(9101), 0);
    from_destination.step(datagram(at(5000), 4));
    assert_eq!(from_destination.step(datagram(at(9101), 0)), done);

    let mut from_stranger = ready(at(9101), 0);
    from_stranger.step(datagram(at(5000), 4));
    assert_eq!(from_stranger.step(datagram(at(7000), 0)), done);
    assert_eq!(from_stranger.step(datagram(at(5000), 4)), done);
    assert_eq!(from_stranger.state, SessionState::Ended { outcome: Ok(()) });
}

#[test]
fn socket_failure_ends_the_session_with_an_error() {
    let mut session = ready(at(9101), 0);
    session.step(datagram(at(5000), 4));
    let failed = UdpAction::Finish { outcome: Err(EngineError::Io) };
    assert_eq!(session.step(UdpEvent::SocketFailed), failed);
    assert_eq!(session.pending(), failed);
}

#[test]
fn largest_datagram_is_forwarded_whole() {
    assert_eq!(DATAGRAM_BUFFER, 65535);
    let mut session = ready(at(9101), 0);
    assert_eq!(
        session.step(datagram(at(5000), DATAGRAM_BUFFER)),
        UdpAction::Forward { to: at(9101), len: 65535 }
    );
}
