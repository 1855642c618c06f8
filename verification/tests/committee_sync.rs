use verinode_core::cross_chain::committee_sync::{CommitteeSyncState, SyncOutcome};
use verinode_core::cross_chain::types::{ChainConfig, SYNC_BACKOFF_CAP_MS};

fn cfg(block_time_ms: u64, hops: u32) -> ChainConfig {
    ChainConfig::new("chain".into(), block_time_ms, 32, hops)
}

fn state() -> CommitteeSyncState {
    CommitteeSyncState::new("chain".into(), 0)
}

#[test]
fn healthy_backoff_is_zero() {
    assert_eq!(state().backoff_delay_ms(), 0);
}

#[test]
fn backoff_grows_exponentially_then_caps() {
    let mut s = state();
    let expected = [1_000u64, 2_000, 4_000, 8_000, 16_000, 30_000, 30_000];
    for exp in expected {
        s.record_outcome(SyncOutcome::Failure, 0);
        assert_eq!(s.backoff_delay_ms(), exp);
    }
}

#[test]
fn backoff_saturates_for_pathological_failure_counts() {
    let mut s = state();
    s.consecutive_failures = u32::MAX;
    // Must not panic on overflow; caps at the ceiling.
    assert_eq!(s.backoff_delay_ms(), SYNC_BACKOFF_CAP_MS);
}

#[test]
fn success_clears_failure_streak_and_advances_last_sync() {
    let mut s = state();
    s.record_outcome(SyncOutcome::Failure, 100);
    s.record_outcome(SyncOutcome::Timeout, 200);
    assert_eq!(s.consecutive_failures, 2);
    s.record_outcome(SyncOutcome::Success, 500);
    assert_eq!(s.consecutive_failures, 0);
    assert_eq!(s.last_sync_ms, 500);
    assert_eq!(s.backoff_delay_ms(), 0);
}

#[test]
fn due_for_sync_follows_the_quarter_block_cadence() {
    let config = cfg(2_000, 1); // interval = 500 ms
    let s = state();
    assert!(!s.due_for_sync(&config, 499));
    assert!(s.due_for_sync(&config, 500));
}

#[test]
fn backoff_defers_the_next_sync_while_failing() {
    let config = cfg(2_000, 1); // interval = 500 ms
    let mut s = state();
    s.record_outcome(SyncOutcome::Failure, 0); // backoff = 1_000 ms
    // Next sync is interval (500) + backoff (1_000) after last success (0).
    assert_eq!(s.next_sync_due_ms(&config), 1_500);
    assert!(!s.due_for_sync(&config, 1_499));
    assert!(s.due_for_sync(&config, 1_500));
}

#[test]
fn drift_detected_when_staleness_exceeds_sync_timeout() {
    let config = cfg(2_000, 1); // sync_timeout floored at 60_000 ms
    let s = state();
    assert!(!s.drift_detected(&config, 60_000));
    assert!(s.drift_detected(&config, 60_001));
}

#[test]
fn drift_detected_when_clock_skew_exceeds_budget() {
    let config = cfg(2_000, 2); // drift budget = 1_000 ms
    let mut s = state();
    s.observe_skew(1_000);
    assert!(!s.drift_detected(&config, 0));
    s.observe_skew(1_001);
    assert!(s.drift_detected(&config, 0));
}
