use port_relay::config::Mapping;
use port_relay::error::EngineError;
use port_relay::supervisor::{
    Supervisor, SupervisorAction, SupervisorEvent, SupervisorState, BACKOFF_MILLIS,
};

fn mapping() -> Mapping {
    Mapping::from_str("tcp | 5 | 127.0.0.1:9000 -> 127.0.0.1:9001").unwrap()
}

fn exited(outcome: Result<(), EngineError>) -> SupervisorEvent {
    SupervisorEvent::EngineExited { outcome }
}

#[test]
fn backoff_is_three_seconds() {
    assert_eq!(BACKOFF_MILLIS, 3000);
}

#[test]
fn supervisor_launches_its_mapping() {
    let mut supervisor = Supervisor::new(mapping());
    assert_eq!(supervisor.state, SupervisorState::Starting);
    assert_eq!(
        supervisor.step(SupervisorEvent::Tick, 10),
        SupervisorAction::Launch { mapping: mapping() }
    );
    assert_eq!(supervisor.state, SupervisorState::Running);
    assert_eq!(supervisor.step(SupervisorEvent::Tick, 11), SupervisorAction::AwaitEngine);
}

#[test]
fn failure_is_reported_and_waited_out() {
    let mut supervisor = Supervisor::new(mapping());
    supervisor.step(SupervisorEvent::Tick, 0);
    assert_eq!(
        supervisor.step(exited(Err(EngineError::Bind)), 1000),
        SupervisorAction::Report { error: EngineError::Bind, millis: 3000 }
    );
    assert_eq!(supervisor.state, SupervisorState::BackingOff { since: 1000 });
    assert_eq!(supervisor.step(SupervisorEvent::Tick, 1000), SupervisorAction::Wait { millis: 3000 });
    assert_eq!(supervisor.step(SupervisorEvent::Tick, 2500), SupervisorAction::Wait { millis: 1500 });
    assert_eq!(supervisor.step(SupervisorEvent::Tick, 3999), SupervisorAction::Wait { millis: 1 });
    assert_eq!(
        supervisor.step(SupervisorEvent::Tick, 4000),
        SupervisorAction::Launch { mapping: mapping() }
    );
    assert_eq!(supervisor.state, SupervisorState::Running);
}

#[test]
fn clock_that_reads_less_waits_in_full() {
    let mut supervisor = Supervisor::new(mapping());
    supervisor.step(SupervisorEvent::Tick, 0);
    supervisor.step(exited(Err(EngineError::Io)), 5000);
    assert_eq!(supervisor.step(SupervisorEvent::Tick, 10), SupervisorAction::Wait { millis: 3000 });
}

#[test]
fn backoff_near_the_end_of_time_still_waits() {
    let mut supervisor = Supervisor::new(mapping());
    supervisor.step(SupervisorEvent::Tick, 0);
    supervisor.step(exited(Err(EngineError::Io)), u64::MAX - 10);
    assert_eq!(
        supervisor.step(SupervisorEvent::Tick, u64::MAX),
        SupervisorAction::Wait { millis: 2990 }
    );
}

#[test]
fn stray_exit_does_not_cut_the_delay() {
    let mut supervisor = Supervisor::new(mapping());
    supervisor.step(SupervisorEvent::Tick, 0);
    supervisor.step(exited(Err(EngineError::Accept)), 100);
    assert_eq!(supervisor.step(exited(Ok(())), 9000), SupervisorAction::Wait { millis: 0 });
    assert_eq!(supervisor.state, SupervisorState::BackingOff { since: 100 });
    assert_eq!(
        supervisor.step(SupervisorEvent::Tick, 9000),
        SupervisorAction::Launch { mapping: mapping() }
    );
}

#[test]
fn supervisor_retries_without_limit() {
    let mut supervisor = Supervisor::new(mapping());
    supervisor.step(SupervisorEvent::Tick, 0);
    let mut now: u64 = 0;
    for _ in 0..1000 {
        assert_eq!(
            supervisor.step(exited(Err(EngineError::Accept)), now),
            SupervisorAction::Report { error: EngineError::Accept, millis: 3000 }
        );
        now += 3000;
        assert_eq!(
            supervisor.step(SupervisorEvent::Tick, now),
            SupervisorAction::Launch { mapping: mapping() }
        );
    }
    assert_eq!(supervisor.state, SupervisorState::Running);
}

#[test]
fn clean_exit_stops_the_supervisor() {
    let mut supervisor = Supervisor::new(mapping());
    supervisor.step(SupervisorEvent::Tick, 0);
    assert_eq!(supervisor.step(exited(Ok(())), 50), SupervisorAction::Stop);
    assert_eq!(supervisor.state, SupervisorState::Stopped);
    assert_eq!(supervisor.step(SupervisorEvent::Tick, 9000), SupervisorAction::Stop);
    assert_eq!(supervisor.step(exited(Err(EngineError::Io)), 9000), SupervisorAction::Stop);
}
