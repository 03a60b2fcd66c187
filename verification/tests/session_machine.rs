use iongateway::session::{SessionAction, SessionEvent, SessionMachine, SessionState};

#[test]
fn construction_completes_only_after_config_appears() {
    let mut m = SessionMachine::new(1000, None);
    assert_eq!(m.current_state(), SessionState::AwaitingConfig);
    assert_eq!(m.retry_interval_ms(), 1000);

    // The DBC file is absent for two polls, then appears.
    assert_eq!(m.step(SessionEvent::ConfigMissing), SessionAction::Retry);
    assert_eq!(m.current_state(), SessionState::AwaitingConfig);
    assert_eq!(m.step(SessionEvent::ConfigMissing), SessionAction::Retry);
    assert_eq!(m.step(SessionEvent::ConfigFound), SessionAction::LoadCatalog);
    assert_eq!(m.current_state(), SessionState::Loading);

    assert_eq!(m.step(SessionEvent::LoadSucceeded), SessionAction::OpenSocket);
    assert_eq!(m.step(SessionEvent::OpenSucceeded), SessionAction::ApplyFilters);
    assert_eq!(m.step(SessionEvent::FiltersApplied), SessionAction::ReadFrame);
    assert_eq!(m.current_state(), SessionState::Streaming);
}

#[test]
fn malformed_config_returns_to_waiting() {
    let mut m = SessionMachine::new(1000, None);
    assert_eq!(m.step(SessionEvent::ConfigFound), SessionAction::LoadCatalog);
    assert_eq!(m.step(SessionEvent::LoadFailed), SessionAction::Retry);
    assert_eq!(m.current_state(), SessionState::AwaitingConfig);
}

#[test]
fn read_failure_is_followed_by_exactly_one_reopen_before_next_read() {
    let mut m = SessionMachine::new(1000, None);
    m.step(SessionEvent::ConfigFound);
    m.step(SessionEvent::LoadSucceeded);
    m.step(SessionEvent::OpenSucceeded);
    m.step(SessionEvent::FiltersApplied);
    assert_eq!(m.current_state(), SessionState::Streaming);

    // A timeout: the socket is dropped, reopened once, filters reapplied,
    // and only then is the next frame attempted.
    assert_eq!(m.step(SessionEvent::ReadTimeout), SessionAction::DropSocket);
    assert_eq!(m.current_state(), SessionState::Reconnecting);
    assert_eq!(m.step(SessionEvent::SocketDropped), SessionAction::OpenSocket);
    assert_eq!(m.step(SessionEvent::OpenSucceeded), SessionAction::ApplyFilters);
    assert_eq!(m.step(SessionEvent::FiltersApplied), SessionAction::ReadFrame);
    assert_eq!(m.current_state(), SessionState::Streaming);

    // An OS-level read error takes the same path, and a failed filter
    // reapplication is non-fatal.
    assert_eq!(m.step(SessionEvent::ReadError), SessionAction::DropSocket);
    assert_eq!(m.step(SessionEvent::SocketDropped), SessionAction::OpenSocket);
    assert_eq!(m.step(SessionEvent::OpenSucceeded), SessionAction::ApplyFilters);
    assert_eq!(m.step(SessionEvent::FilterFailed), SessionAction::ReadFrame);
    assert_eq!(m.current_state(), SessionState::Streaming);
}

#[test]
fn open_failures_retry_in_place() {
    let mut m = SessionMachine::new(1000, None);
    m.step(SessionEvent::ConfigFound);
    m.step(SessionEvent::LoadSucceeded);
    assert_eq!(m.step(SessionEvent::OpenFailed), SessionAction::Retry);
    assert_eq!(m.current_state(), SessionState::Opening);
    assert_eq!(m.step(SessionEvent::OpenFailed), SessionAction::Retry);
    assert_eq!(m.step(SessionEvent::OpenSucceeded), SessionAction::ApplyFilters);
}

#[test]
fn retry_budget_runs_out() {
    let mut m = SessionMachine::new(10, Some(2));
    assert_eq!(m.step(SessionEvent::ConfigMissing), SessionAction::Retry);
    assert_eq!(m.step(SessionEvent::ConfigMissing), SessionAction::Retry);
    assert_eq!(m.step(SessionEvent::ConfigMissing), SessionAction::GiveUp);
    assert_eq!(m.current_state(), SessionState::GivenUp);
    // A given-up machine stays given up.
    assert_eq!(m.step(SessionEvent::ConfigFound), SessionAction::GiveUp);
}

#[test]
fn frames_keep_streaming() {
    let mut m = SessionMachine::new(1000, None);
    m.step(SessionEvent::ConfigFound);
    m.step(SessionEvent::LoadSucceeded);
    m.step(SessionEvent::OpenSucceeded);
    m.step(SessionEvent::FiltersApplied);
    assert_eq!(m.step(SessionEvent::FrameHandled), SessionAction::ReadFrame);
    assert_eq!(m.current_state(), SessionState::Streaming);
}
