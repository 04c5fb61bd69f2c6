use port_relay::config::Mapping;
use port_relay::error::EngineError;
use port_relay::forward::{Direction, ForwardAction, ForwardEvent, Forwarding};
use port_relay::tcp::{TcpAction, TcpEngine, TcpEvent, PENDING_CAPACITY};

fn listening() -> TcpEngine {
    let mut engine = TcpEngine::new();
    assert_eq!(engine.step(TcpEvent::Bound), TcpAction::Serve);
    engine
}

fn finished(id: u64, outcome: Result<(), EngineError>) -> TcpEvent {
    TcpEvent::Finished { id, outcome }
}

#[test]
fn capacity_is_four() {
    assert_eq!(PENDING_CAPACITY, 4);
}

#[test]
fn engine_binds_before_it_serves() {
    let mut engine = TcpEngine::new();
    assert!(!engine.accepting());
    assert_eq!(engine.step(TcpEvent::Accepted), TcpAction::Bind);
    assert_eq!(engine.step(TcpEvent::WorkerReady), TcpAction::Bind);
    assert_eq!(engine.step(TcpEvent::Bound), TcpAction::Serve);
    assert!(engine.accepting());
    assert_eq!(engine.step(TcpEvent::Bound), TcpAction::Ignore);
    assert_eq!(engine.step(TcpEvent::WorkerReady), TcpAction::Idle);
}

#[test]
fn bind_failure_ends_the_engine() {
    let mut engine = TcpEngine::new();
    let failed = TcpAction::Finish { error: EngineError::Bind };
    assert_eq!(engine.step(TcpEvent::BindFailed), failed);
    assert_eq!(engine.step(TcpEvent::Bound), failed);
    assert_eq!(engine.step(TcpEvent::Accepted), failed);
    assert!(!engine.accepting());
}

#[test]
fn accept_failure_ends_the_engine() {
    let mut engine = listening();
    assert_eq!(engine.step(TcpEvent::Accepted), TcpAction::Hold { id: 0 });
    let failed = TcpAction::Finish { error: EngineError::Accept };
    assert_eq!(engine.step(TcpEvent::AcceptFailed), failed);
    assert_eq!(engine.step(TcpEvent::WorkerReady), failed);
    assert_eq!(engine.step(finished(0, Ok(()))), failed);
}

#[test]
fn clients_are_numbered_and_started_in_order() {
    let mut engine = listening();
    assert_eq!(engine.step(TcpEvent::Accepted), TcpAction::Hold { id: 0 });
    assert_eq!(engine.step(TcpEvent::Accepted), TcpAction::Hold { id: 1 });
    assert_eq!(engine.step(TcpEvent::WorkerReady), TcpAction::Start { id: 0 });
    assert_eq!(engine.step(TcpEvent::Accepted), TcpAction::Hold { id: 2 });
    assert_eq!(engine.step(TcpEvent::WorkerReady), TcpAction::Start { id: 1 });
    assert_eq!(engine.step(TcpEvent::WorkerReady), TcpAction::Start { id: 2 });
    assert_eq!(engine.step(TcpEvent::WorkerReady), TcpAction::Idle);
    assert_eq!(engine.in_flight(), 3);
}

#[test]
fn full_queue_holds_one_more_client_and_stops_accepting() {
    let mut engine = listening();
    for id in 0..4 {
        assert!(engine.accepting());
        assert_eq!(engine.step(TcpEvent::Accepted), TcpAction::Hold { id });
    }
    assert!(engine.accepting());
    assert_eq!(engine.step(TcpEvent::Accepted), TcpAction::Hold { id: 4 });
    assert!(!engine.accepting());
    assert_eq!(engine.step(TcpEvent::Accepted), TcpAction::Refuse);
    assert_eq!(engine.step(TcpEvent::WorkerReady), TcpAction::Start { id: 0 });
    assert_eq!(engine.step(TcpEvent::Connected { id: 0 }), TcpAction::Freed { id: 0 });
    assert!(engine.accepting());
    assert_eq!(engine.step(TcpEvent::Accepted), TcpAction::Hold { id: 5 });
    assert!(!engine.accepting());
    for id in 1..6 {
        assert_eq!(engine.step(TcpEvent::WorkerReady), TcpAction::Start { id });
        assert_eq!(engine.step(TcpEvent::Connected { id }), TcpAction::Freed { id });
    }
    assert_eq!(engine.step(TcpEvent::WorkerReady), TcpAction::Idle);
    assert_eq!(engine.in_flight(), 6);
    assert_eq!(engine.connecting(), 0);
}

#[test]
fn every_client_is_forwarded_when_more_arrive_than_the_queue_holds() {
    let clients: u64 = 25;
    let mut engine = listening();
    let mut held: Vec<u64> = Vec::new();
    let mut started: Vec<u64> = Vec::new();
    while (held.len() as u64) < clients {
        if engine.accepting() {
            match engine.step(TcpEvent::Accepted) {
                TcpAction::Hold { id } => held.push(id),
                other => panic!("client was not held: {other:?}"),
            }
        } else {
            match engine.step(TcpEvent::WorkerReady) {
                TcpAction::Start { id } => {
                    started.push(id);
                    assert_eq!(engine.step(TcpEvent::Connected { id }), TcpAction::Freed { id });
                }
                other => panic!("nothing was started: {other:?}"),
            }
        }
        assert!(engine.connecting() <= PENDING_CAPACITY);
    }
    loop {
        match engine.step(TcpEvent::WorkerReady) {
            TcpAction::Start { id } => {
                started.push(id);
                assert_eq!(engine.step(TcpEvent::Connected { id }), TcpAction::Freed { id });
            }
            TcpAction::Idle => break,
            other => panic!("unexpected {other:?}"),
        }
    }
    assert_eq!(held, (0..clients).collect::<Vec<u64>>());
    assert_eq!(started, held);
    assert_eq!(engine.in_flight(), 25);
    for id in 0..clients {
        assert_eq!(engine.step(finished(id, Ok(()))), TcpAction::Discard { id, outcome: Ok(()) });
    }
    assert_eq!(engine.in_flight(), 0);
}

#[test]
fn failed_connection_is_discarded_alone() {
    let mut engine = listening();
    engine.step(TcpEvent::Accepted);
    engine.step(TcpEvent::Accepted);
    engine.step(TcpEvent::WorkerReady);
    engine.step(TcpEvent::WorkerReady);
    assert_eq!(
        engine.step(finished(0, Err(EngineError::Connect))),
        TcpAction::Discard { id: 0, outcome: Err(EngineError::Connect) }
    );
    assert!(engine.accepting());
    assert_eq!(engine.in_flight(), 1);
    assert_eq!(engine.step(TcpEvent::Accepted), TcpAction::Hold { id: 2 });
    assert_eq!(engine.step(TcpEvent::WorkerReady), TcpAction::Start { id: 2 });
    assert_eq!(engine.step(finished(2, Ok(()))), TcpAction::Discard { id: 2, outcome: Ok(()) });
    assert_eq!(
        engine.step(finished(1, Err(EngineError::Io))),
        TcpAction::Discard { id: 1, outcome: Err(EngineError::Io) }
    );
    assert_eq!(engine.in_flight(), 0);
    assert!(engine.accepting());
}

#[test]
fn unknown_or_repeated_end_is_ignored() {
    let mut engine = listening();
    engine.step(TcpEvent::Accepted);
    assert_eq!(engine.step(finished(0, Ok(()))), TcpAction::Ignore);
    engine.step(TcpEvent::WorkerReady);
    assert_eq!(engine.step(finished(7, Ok(()))), TcpAction::Ignore);
    assert_eq!(engine.step(finished(0, Ok(()))), TcpAction::Discard { id: 0, outcome: Ok(()) });
    assert_eq!(engine.step(finished(0, Ok(()))), TcpAction::Ignore);
    assert_eq!(engine.in_flight(), 0);
}

#[test]
fn echo_through_the_proxy_and_close() {
    let mapping = Mapping::from_str("tcp | 5 | 127.0.0.1:9000 -> 127.0.0.1:9001").unwrap();
    let mut engine = TcpEngine::new();
    assert_eq!(engine.step(TcpEvent::Bound), TcpAction::Serve);
    assert_eq!(engine.step(TcpEvent::Accepted), TcpAction::Hold { id: 0 });
    assert_eq!(engine.step(TcpEvent::WorkerReady), TcpAction::Start { id: 0 });
    assert_eq!(engine.connecting(), 1);

    let mut forwarding = Forwarding::new(mapping.priority);
    assert_eq!(forwarding.pending(), ForwardAction::Connect);
    assert_eq!(forwarding.step(ForwardEvent::Connected), ForwardAction::ApplyPriority { value: 5 });
    assert_eq!(forwarding.step(ForwardEvent::PriorityApplied), ForwardAction::Relay);
    assert_eq!(engine.step(TcpEvent::Connected { id: 0 }), TcpAction::Freed { id: 0 });
    assert_eq!(engine.connecting(), 0);
    assert_eq!(engine.in_flight(), 1);
    let client_closed =
        ForwardEvent::DirectionEnded { direction: Direction::ClientToDestination, failed: false };
    let outcome = match forwarding.step(client_closed) {
        ForwardAction::Close { outcome } => outcome,
        other => panic!("connection was not closed: {other:?}"),
    };
    assert_eq!(outcome, Ok(()));
    assert_eq!(engine.step(finished(0, outcome)), TcpAction::Discard { id: 0, outcome: Ok(()) });
    assert!(engine.accepting());
}

#[test]
fn connects_in_progress_stay_within_the_capacity() {
    let mut engine = listening();
    for id in 0..4 {
        assert_eq!(engine.step(TcpEvent::Accepted), TcpAction::Hold { id });
        assert_eq!(engine.step(TcpEvent::WorkerReady), TcpAction::Start { id });
    }
    assert_eq!(engine.connecting(), 4);
    assert_eq!(engine.step(TcpEvent::WorkerReady), TcpAction::Busy);
    for id in 4..8 {
        assert_eq!(engine.step(TcpEvent::Accepted), TcpAction::Hold { id });
        assert_eq!(engine.step(TcpEvent::WorkerReady), TcpAction::Busy);
    }
    assert_eq!(engine.step(TcpEvent::Accepted), TcpAction::Hold { id: 8 });
    assert!(!engine.accepting());
    assert_eq!(engine.connecting(), 4);
    assert_eq!(engine.in_flight(), 4);

    assert_eq!(engine.step(TcpEvent::Connected { id: 2 }), TcpAction::Freed { id: 2 });
    assert_eq!(engine.connecting(), 3);
    assert_eq!(engine.step(TcpEvent::WorkerReady), TcpAction::Start { id: 4 });
    assert!(engine.accepting());
    assert_eq!(engine.step(TcpEvent::WorkerReady), TcpAction::Busy);
    assert_eq!(engine.connecting(), 4);
    assert_eq!(engine.in_flight(), 5);
}

#[test]
fn failed_connect_frees_its_place() {
    let mut engine = listening();
    for id in 0..5 {
        assert_eq!(engine.step(TcpEvent::Accepted), TcpAction::Hold { id });
    }
    for id in 0..4 {
        assert_eq!(engine.step(TcpEvent::WorkerReady), TcpAction::Start { id });
    }
    assert_eq!(engine.step(TcpEvent::WorkerReady), TcpAction::Busy);
    assert_eq!(
        engine.step(finished(1, Err(EngineError::Connect))),
        TcpAction::Discard { id: 1, outcome: Err(EngineError::Connect) }
    );
    assert_eq!(engine.connecting(), 3);
    assert_eq!(engine.in_flight(), 3);
    assert_eq!(engine.step(TcpEvent::WorkerReady), TcpAction::Start { id: 4 });
    assert_eq!(engine.step(TcpEvent::WorkerReady), TcpAction::Busy);
}

#[test]
fn connected_is_taken_once_and_only_of_a_connect_in_progress() {
    let mut engine = listening();
    assert_eq!(engine.step(TcpEvent::Connected { id: 0 }), TcpAction::Ignore);
    engine.step(TcpEvent::Accepted);
    assert_eq!(engine.step(TcpEvent::Connected { id: 0 }), TcpAction::Ignore);
    engine.step(TcpEvent::WorkerReady);
    assert_eq!(engine.step(TcpEvent::Connected { id: 0 }), TcpAction::Freed { id: 0 });
    assert_eq!(engine.step(TcpEvent::Connected { id: 0 }), TcpAction::Ignore);
    assert_eq!(engine.in_flight(), 1);
    assert_eq!(engine.step(finished(0, Ok(()))), TcpAction::Discard { id: 0, outcome: Ok(()) });
    assert_eq!(engine.step(TcpEvent::Connected { id: 0 }), TcpAction::Ignore);
}
