//! Backoff bookkeeping of the MCP respawn watcher.

use line_hub_core::respawn::RespawnState;
use std::time::Duration;

const NOW: i64 = 1_757_606_400_000;

#[test]
fn respawn_attempts_count_up_to_three() {
    let mut s = RespawnState {
        enabled: true,
        attempts: 0,
        ..Default::default()
    };
    assert_eq!(s.next_backoff(NOW).map(Duration::from_secs), Some(Duration::from_secs(1)));
    assert_eq!(s.next_backoff(NOW).map(Duration::from_secs), Some(Duration::from_secs(2)));
    assert_eq!(s.next_backoff(NOW).map(Duration::from_secs), Some(Duration::from_secs(4)));
    assert_eq!(s.next_backoff(NOW), None, "should give up after 3 attempts");
}

#[test]
fn disabled_means_no_respawn() {
    let mut s = RespawnState::default();
    assert_eq!(s.next_backoff(NOW), None);
}

#[test]
fn mark_alive_resets_attempts() {
    let mut s = RespawnState {
        enabled: true,
        attempts: 2,
        ..Default::default()
    };
    s.reset();
    assert_eq!(s.attempts, 0);
}

#[test]
fn granted_attempt_records_its_time_and_reset_clears_it() {
    let mut s = RespawnState {
        enabled: true,
        ..Default::default()
    };
    assert!(s.respawn_allowed());
    assert_eq!(s.next_backoff(NOW), Some(1));
    assert_eq!(s.last_attempt_unix_ms, NOW);
    s.reset();
    assert_eq!(s.last_attempt_unix_ms, 0);
    s.attempts = 3;
    assert!(!s.respawn_allowed());
}
