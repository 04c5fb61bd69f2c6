use port_relay::error::EngineError;
use port_relay::forward::{Direction, ForwardAction, ForwardEvent, ForwardState, Forwarding};

fn ended(direction: Direction, failed: bool) -> ForwardEvent {
    ForwardEvent::DirectionEnded { direction, failed }
}

#[test]
fn forwarding_connects_tags_then_relays() {
    let mut forwarding = Forwarding::new(5);
    assert_eq!(forwarding.pending(), ForwardAction::Connect);
    assert_eq!(forwarding.step(ForwardEvent::Connected), ForwardAction::ApplyPriority { value: 5 });
    assert_eq!(forwarding.step(ForwardEvent::PriorityApplied), ForwardAction::Relay);
    assert_eq!(forwarding.state, ForwardState::Relaying);
}

#[test]
fn priority_value_is_the_configured_priority() {
    for priority in [0u8, 1, 127, 128, 255] {
        let mut forwarding = Forwarding::new(priority);
        assert_eq!(
            forwarding.step(ForwardEvent::Connected),
            ForwardAction::ApplyPriority { value: i32::from(priority) }
        );
    }
}

#[test]
fn unreachable_destination_closes_with_connect_error() {
    let mut forwarding = Forwarding::new(5);
    let closed = ForwardAction::Close { outcome: Err(EngineError::Connect) };
    assert_eq!(forwarding.step(ForwardEvent::ConnectFailed), closed);
    assert_eq!(forwarding.step(ForwardEvent::Connected), closed);
    assert_eq!(forwarding.step(ForwardEvent::PriorityApplied), closed);
}

#[test]
fn priority_failure_closes_before_relaying() {
    let mut forwarding = Forwarding::new(5);
    forwarding.step(ForwardEvent::Connected);
    assert_eq!(
        forwarding.step(ForwardEvent::PriorityFailed),
        ForwardAction::Close { outcome: Err(EngineError::SocketOption) }
    );
}

#[test]
fn relay_is_not_started_without_the_priority() {
    let mut forwarding = Forwarding::new(5);
    assert_eq!(forwarding.step(ForwardEvent::PriorityApplied), ForwardAction::Connect);
    forwarding.step(ForwardEvent::Connected);
    assert_eq!(
        forwarding.step(ended(Direction::ClientToDestination, false)),
        ForwardAction::ApplyPriority { value: 5 }
    );
    assert_eq!(forwarding.state, ForwardState::Untagged);
}

#[test]
fn client_closing_closes_the_destination() {
    let mut forwarding = Forwarding::new(5);
    forwarding.step(ForwardEvent::Connected);
    forwarding.step(ForwardEvent::PriorityApplied);
    let closed = ForwardAction::Close { outcome: Ok(()) };
    assert_eq!(forwarding.step(ended(Direction::ClientToDestination, false)), closed);
    assert_eq!(forwarding.step(ended(Direction::DestinationToClient, true)), closed);
}

#[test]
fn failed_copy_closes_with_io_error() {
    let mut forwarding = Forwarding::new(5);
    forwarding.step(ForwardEvent::Connected);
    forwarding.step(ForwardEvent::PriorityApplied);
    assert_eq!(
        forwarding.step(ended(Direction::DestinationToClient, true)),
        ForwardAction::Close { outcome: Err(EngineError::Io) }
    );
    assert_eq!(forwarding.state, ForwardState::Closed { outcome: Err(EngineError::Io) });
}
