use poker_client::connection::{
    heartbeat_due, ConnectionAction, ConnectionEvent, ConnectionManager, ConnectionStatus,
    DEFAULT_MAX_RECONNECTION_ATTEMPTS, HEARTBEAT_INTERVAL_SECS, RECONNECT_DELAY_SECS,
};

#[test]
fn heartbeat_fires_on_the_interval() {
    let start = 1_700_000_000_000i64;
    let interval_ms = HEARTBEAT_INTERVAL_SECS as i64 * 1000;
    assert!(!heartbeat_due(start, start, HEARTBEAT_INTERVAL_SECS));
    assert!(!heartbeat_due(start + interval_ms - 1, start, HEARTBEAT_INTERVAL_SECS));
    assert!(heartbeat_due(start + interval_ms, start, HEARTBEAT_INTERVAL_SECS));
}

#[test]
fn fresh_manager_is_disconnected() {
    let m = ConnectionManager::new();
    assert_eq!(m.status, ConnectionStatus::Disconnected);
    assert_eq!(m.reconnection_attempts, 0);
    assert_eq!(m.max_reconnection_attempts, DEFAULT_MAX_RECONNECTION_ATTEMPTS);
    assert!(!m.is_connected());
}

#[test]
fn connect_then_open_starts_tasks() {
    let mut m = ConnectionManager::new();
    assert_eq!(m.on_event(ConnectionEvent::OpenRequested), ConnectionAction::OpenTransport);
    assert_eq!(m.status, ConnectionStatus::Connecting);
    assert_eq!(m.on_event(ConnectionEvent::Opened), ConnectionAction::StartTasks);
    assert!(m.is_connected());
    assert_eq!(m.reconnection_attempts, 0);
}

#[test]
fn reconnection_is_bounded_at_ten_attempts() {
    let mut m = ConnectionManager::new();
    m.on_event(ConnectionEvent::OpenRequested);
    let mut retries = 0;
    let mut fatal = 0;
    // repeated simulated connect failures
    for _ in 0..25 {
        match m.on_event(ConnectionEvent::OpenFailed) {
            ConnectionAction::ScheduleRetry { delay_secs } => {
                assert_eq!(delay_secs, RECONNECT_DELAY_SECS);
                retries += 1;
            }
            ConnectionAction::RaiseFatal => fatal += 1,
            ConnectionAction::Stay => {}
            other => panic!("unexpected action {:?}", other),
        }
    }
    // one initial attempt plus nine scheduled retries: ten attempts in all,
    // no eleventh; the tenth failure raised the fatal error exactly once
    assert_eq!(retries, 9);
    assert_eq!(fatal, 1);
    assert_eq!(m.status, ConnectionStatus::Failed);
}

#[test]
fn manual_retry_leaves_fatal_state() {
    let mut m = ConnectionManager::new();
    m.on_event(ConnectionEvent::OpenRequested);
    for _ in 0..10 {
        m.on_event(ConnectionEvent::OpenFailed);
    }
    assert_eq!(m.status, ConnectionStatus::Failed);
    // no reconnect is issued while failed
    assert_eq!(m.on_event(ConnectionEvent::OpenFailed), ConnectionAction::Stay);
    assert_eq!(m.on_event(ConnectionEvent::ManualRetry), ConnectionAction::OpenTransport);
    assert_eq!(m.status, ConnectionStatus::Connecting);
    assert_eq!(m.reconnection_attempts, 0);
}

#[test]
fn link_loss_schedules_one_retry() {
    let mut m = ConnectionManager::new();
    m.on_event(ConnectionEvent::OpenRequested);
    m.on_event(ConnectionEvent::Opened);
    let action = m.on_event(ConnectionEvent::LinkLost);
    assert_eq!(action, ConnectionAction::ScheduleRetry { delay_secs: RECONNECT_DELAY_SECS });
    assert_eq!(m.status, ConnectionStatus::Connecting);
    // a reconnect must not be issued while a connection is live
    let mut live = ConnectionManager::new();
    live.on_event(ConnectionEvent::OpenRequested);
    live.on_event(ConnectionEvent::Opened);
    assert_eq!(live.on_event(ConnectionEvent::OpenRequested), ConnectionAction::Stay);
}

#[test]
fn close_cancels_everything() {
    let mut m = ConnectionManager::new();
    m.on_event(ConnectionEvent::OpenRequested);
    m.on_event(ConnectionEvent::Opened);
    assert_eq!(m.on_event(ConnectionEvent::CloseRequested), ConnectionAction::CloseTransport);
    assert_eq!(m.status, ConnectionStatus::Disconnected);
    assert_eq!(m.reconnection_attempts, 0);
}
