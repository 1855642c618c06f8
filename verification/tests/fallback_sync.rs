use verinode_core::consensus::recovery::fallback_sync::{
    DEADLOCK_VIEW_THRESHOLD, FallbackSyncEngine, FallbackSyncError, FallbackSyncEvent,
    LockedValue,
};
use verinode_core::consensus::view_change::types::BlockHash;

fn hash(id: u8) -> BlockHash {
    let mut h = [0u8; 32];
    h[31] = id;
    h
}

fn locked(block_id: u8, lock_view: u64) -> LockedValue {
    LockedValue::new(hash(block_id), lock_view)
}

// ─── deadlock counter ─────────────────────────────────────────────────────

#[test]
fn deadlock_counter_increments_on_view_timeout() {
    let mut engine = FallbackSyncEngine::new(0);
    assert!(!engine.is_deadlocked());
    for i in 1..=DEADLOCK_VIEW_THRESHOLD {
        engine.on_view_timeout();
        assert_eq!(engine.deadlocked_views(), i);
    }
    assert!(engine.is_deadlocked());
}

#[test]
fn fallback_sync_commit_resets_deadlock_counter() {
    let mut engine = FallbackSyncEngine::new(0);
    for _ in 0..DEADLOCK_VIEW_THRESHOLD {
        engine.on_view_timeout();
    }
    assert!(engine.is_deadlocked());
    engine.on_commit();
    assert_eq!(engine.deadlocked_views(), 0);
    assert!(!engine.is_deadlocked());
}

// ─── fallback selection ───────────────────────────────────────────────────

#[test]
fn run_fallback_selects_highest_lock_view() {
    let mut engine = FallbackSyncEngine::new(10);
    for _ in 0..DEADLOCK_VIEW_THRESHOLD {
        engine.on_view_timeout();
    }

    let locks = vec![locked(1, 7), locked(2, 9), locked(3, 8)];
    let result = engine.run_fallback(&locks).unwrap();
    assert_eq!(result, hash(2)); // lock_view=9 wins
}

#[test]
fn run_fallback_breaks_lock_view_tie_by_block_hash() {
    let mut engine = FallbackSyncEngine::new(0);
    for _ in 0..DEADLOCK_VIEW_THRESHOLD {
        engine.on_view_timeout();
    }

    // Both locked at view 5; block hash 200 > block hash 100 lexicographically.
    let locks = vec![locked(100, 5), locked(200, 5)];
    let result = engine.run_fallback(&locks).unwrap();
    assert_eq!(result, hash(200)); // higher block_hash wins tie
}

#[test]
fn run_fallback_resets_deadlock_counter_after_commit() {
    let mut engine = FallbackSyncEngine::new(0);
    for _ in 0..DEADLOCK_VIEW_THRESHOLD {
        engine.on_view_timeout();
    }
    assert!(engine.is_deadlocked());

    let locks = vec![locked(1, 3)];
    engine.run_fallback(&locks).unwrap();

    assert!(!engine.is_deadlocked());
    assert_eq!(engine.deadlocked_views(), 0);
}

// ─── error paths ──────────────────────────────────────────────────────────

#[test]
fn run_fallback_errors_before_threshold_reached() {
    let mut engine = FallbackSyncEngine::new(0);
    // Only 4 timeouts — one short of threshold.
    for _ in 0..(DEADLOCK_VIEW_THRESHOLD - 1) {
        engine.on_view_timeout();
    }
    let err = engine.run_fallback(&[locked(1, 1)]).unwrap_err();
    assert_eq!(
        err,
        FallbackSyncError::ThresholdNotReached {
            current_deadlocked_views: DEADLOCK_VIEW_THRESHOLD - 1,
            required: DEADLOCK_VIEW_THRESHOLD,
        }
    );
}

#[test]
fn run_fallback_errors_with_no_locked_values() {
    let mut engine = FallbackSyncEngine::new(0);
    for _ in 0..DEADLOCK_VIEW_THRESHOLD {
        engine.on_view_timeout();
    }
    let err = engine.run_fallback(&[]).unwrap_err();
    assert_eq!(err, FallbackSyncError::NoLockedValues);
}

// ─── observability events ─────────────────────────────────────────────────

#[test]
fn run_fallback_emits_correct_events() {
    let mut engine = FallbackSyncEngine::new(3);
    for _ in 0..DEADLOCK_VIEW_THRESHOLD {
        engine.on_view_timeout();
    }

    let locks = vec![locked(42, 6)];
    let committed = engine.run_fallback(&locks).unwrap();
    assert_eq!(committed, hash(42));

    let events = engine.drain_events();
    // FallbackTriggered, FallbackProposalSelected, FallbackCommitted, DeadlockCounterReset
    assert_eq!(events.len(), 4);
    assert!(matches!(
        events[0],
        FallbackSyncEvent::FallbackTriggered {
            deadlocked_views: 5,
            ..
        }
    ));
    assert!(matches!(
        events[1],
        FallbackSyncEvent::FallbackProposalSelected { lock_view: 6, .. }
    ));
    assert!(matches!(
        events[2],
        FallbackSyncEvent::FallbackCommitted { .. }
    ));
    assert!(matches!(
        events[3],
        FallbackSyncEvent::DeadlockCounterReset { .. }
    ));
}
