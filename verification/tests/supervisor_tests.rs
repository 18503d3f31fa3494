//! Reconnection-supervisor checks: back-off schedule and giving up.

use obs_sync::client::{backoff_delay_secs, ReconnectSupervisor, SupervisorAction};

#[test]
fn backoff_schedule_doubles_and_caps() {
    assert_eq!(backoff_delay_secs(1), 1);
    assert_eq!(backoff_delay_secs(2), 2);
    assert_eq!(backoff_delay_secs(3), 4);
    assert_eq!(backoff_delay_secs(4), 8);
    assert_eq!(backoff_delay_secs(5), 16);
    assert_eq!(backoff_delay_secs(6), 30);
    assert_eq!(backoff_delay_secs(7), 30);
    assert_eq!(backoff_delay_secs(100), 30);
}

#[test]
fn three_attempts_then_stop() {
    let mut sup = ReconnectSupervisor::new(3);

    // attempt 1: immediate
    assert_eq!(sup.next_action(), SupervisorAction::ConnectNow);
    sup.on_connect_failed("connection refused".to_string());
    assert_eq!(sup.get_reconnection_status().attempt_count, 1);

    // attempt 2: after 1 second
    assert_eq!(
        sup.next_action(),
        SupervisorAction::SleepThenConnect { delay_secs: 1 }
    );
    assert!(sup.get_reconnection_status().is_reconnecting);
    sup.on_connect_failed("connection refused".to_string());

    // attempt 3: after 2 seconds
    assert_eq!(
        sup.next_action(),
        SupervisorAction::SleepThenConnect { delay_secs: 2 }
    );
    sup.on_connect_failed("connection refused".to_string());

    // budget of three spent: stop, with the exact message
    assert_eq!(sup.next_action(), SupervisorAction::Stop);
    let status = sup.get_reconnection_status();
    assert!(!status.is_reconnecting);
    assert_eq!(
        status.last_error.as_deref(),
        Some("Max reconnection attempts (3) reached")
    );
}

#[test]
fn success_resets_the_failure_streak() {
    let mut sup = ReconnectSupervisor::new(10);
    assert_eq!(sup.next_action(), SupervisorAction::ConnectNow);
    sup.on_connect_failed("refused".to_string());
    sup.on_connect_failed("refused".to_string());
    sup.on_connected();
    let status = sup.get_reconnection_status();
    assert!(!status.is_reconnecting);
    assert_eq!(status.attempt_count, 0);
    assert_eq!(status.last_error, None);
    assert_eq!(sup.next_action(), SupervisorAction::ConnectNow);
}

#[test]
fn lost_connection_retries_at_once() {
    let mut sup = ReconnectSupervisor::new(10);
    sup.on_connected();
    sup.on_connection_lost();
    let status = sup.get_reconnection_status();
    assert!(status.is_reconnecting);
    assert_eq!(status.last_error.as_deref(), Some("Connection lost"));
    assert_eq!(sup.next_action(), SupervisorAction::ConnectNow);
}

#[test]
fn disconnect_stops_cleanly() {
    let mut sup = ReconnectSupervisor::new(10);
    sup.on_connect_failed("refused".to_string());
    sup.disconnect();
    assert_eq!(sup.next_action(), SupervisorAction::Stop);
    let status = sup.get_reconnection_status();
    assert!(!status.is_reconnecting);
    assert_eq!(status.attempt_count, 0);
    assert_eq!(status.last_error, None);
}
