use verinode_core::consensus::engine::consensus_engine::{
    ConsensusEngine, ConsensusEngineError, ConsensusEngineEvent,
};
use verinode_core::consensus::proposal::equivocation_detector::Proposal;
use verinode_core::consensus::recovery::fallback_sync::{
    DEADLOCK_VIEW_THRESHOLD, FallbackSyncError, LockedValue,
};
use verinode_core::consensus::view_change::types::{AggregateSignature, BlockHash, PublicKey};

fn pk(id: u8) -> PublicKey {
    let mut k = [0u8; 32];
    k[31] = id;
    k
}

fn hash(id: u8) -> BlockHash {
    let mut h = [0u8; 32];
    h[31] = id;
    h
}

fn sig(id: u8) -> AggregateSignature {
    let mut s = [1u8; 96];
    s[95] = id;
    s
}

fn validators() -> Vec<PublicKey> {
    vec![pk(1), pk(2), pk(3), pk(4)]
}

fn proposal(height: u64, proposer_id: u8, block_id: u8) -> Proposal {
    Proposal::new(height, pk(proposer_id), hash(block_id), sig(block_id))
}

fn locked(block_id: u8, lock_view: u64) -> LockedValue {
    LockedValue::new(hash(block_id), lock_view)
}

// ─── normal flow ──────────────────────────────────────────────────────────

#[test]
fn first_proposal_accepted_no_equivocation() {
    let mut engine = ConsensusEngine::new(0, validators());
    let result = engine.on_proposal(proposal(1, 1, 10)).unwrap();
    assert!(result.is_none());
    assert_eq!(engine.current_view(), 0);
}

#[test]
fn consensus_engine_commit_resets_deadlock_counter() {
    let mut engine = ConsensusEngine::new(0, validators());
    engine.on_view_timeout(4_000, &[]).ok();
    engine.on_view_timeout(8_000, &[]).ok();
    assert_eq!(engine.deadlocked_views(), 2);

    engine.on_commit(hash(99));
    assert_eq!(engine.deadlocked_views(), 0);
}

// ─── equivocation fast-path ───────────────────────────────────────────────

#[test]
fn equivocation_immediately_advances_view() {
    let mut engine = ConsensusEngine::new(0, validators());
    assert_eq!(engine.current_view(), 0);

    engine.on_proposal(proposal(5, 1, 1)).unwrap(); // first proposal
    let proof = engine.on_proposal(proposal(5, 1, 2)).unwrap(); // conflicting → equivocation

    assert!(proof.is_some(), "expected equivocation proof");
    assert_eq!(
        engine.current_view(),
        1,
        "view must advance immediately on equivocation"
    );

    let events = engine.events();
    assert!(events.iter().any(|e| matches!(
        e,
        ConsensusEngineEvent::EquivocationDetected { new_view: 1, .. }
    )));
}

#[test]
fn equivocation_does_not_wait_for_timeout() {
    // Verify that after equivocation the view advances even before any timeout fires.
    let mut engine = ConsensusEngine::new(3, validators());
    engine.on_proposal(proposal(10, 2, 100)).unwrap();
    engine.on_proposal(proposal(10, 2, 101)).unwrap(); // equivocation

    // View should be 4 now (advanced from 3), with no timeout calls.
    assert_eq!(engine.current_view(), 4);
}

// ─── fallback recovery ────────────────────────────────────────────────────

#[test]
fn five_consecutive_timeouts_trigger_fallback() {
    let mut engine = ConsensusEngine::new(0, validators());
    let locks = vec![locked(55, 3)];

    for i in 0..(DEADLOCK_VIEW_THRESHOLD - 1) {
        let result = engine.on_view_timeout(4_000, &[]).unwrap();
        assert!(result.is_none(), "fallback should not fire at timeout {i}");
    }

    // 5th timeout triggers fallback.
    let result = engine.on_view_timeout(4_000, &locks).unwrap();
    assert_eq!(result, Some(hash(55)));
    assert_eq!(
        engine.deadlocked_views(),
        0,
        "deadlock counter must reset after fallback commit"
    );
}

#[test]
fn fallback_errors_with_no_locked_values() {
    let mut engine = ConsensusEngine::new(0, validators());
    for _ in 0..DEADLOCK_VIEW_THRESHOLD {
        let _ = engine.on_view_timeout(4_000, &[]);
    }
    // After threshold, an additional timeout with no locks must fail.
    // Manually pump enough timeouts to reach threshold on a fresh engine.
    let mut engine2 = ConsensusEngine::new(0, validators());
    for _ in 0..(DEADLOCK_VIEW_THRESHOLD - 1) {
        engine2.on_view_timeout(4_000, &[]).ok();
    }
    let err = engine2.on_view_timeout(4_000, &[]).unwrap_err();
    assert!(matches!(
        err,
        ConsensusEngineError::FallbackFailed(FallbackSyncError::NoLockedValues)
    ));
}

// ─── observability events ─────────────────────────────────────────────────

#[test]
fn view_timeout_events_are_emitted() {
    let mut engine = ConsensusEngine::new(0, validators());
    engine.on_view_timeout(4_100, &[]).ok();

    let events = engine.drain_events();
    assert!(events.iter().any(|e| matches!(
        e,
        ConsensusEngineEvent::ViewTimeout {
            timed_out_view: 0,
            ..
        }
    )));
}

#[test]
fn block_committed_event_is_emitted() {
    let mut engine = ConsensusEngine::new(0, validators());
    engine.on_commit(hash(7));

    let events = engine.drain_events();
    assert!(events.iter().any(|e| matches!(
        e,
        ConsensusEngineEvent::BlockCommitted {
            block_hash,
            view: 0,
        } if *block_hash == hash(7)
    )));
}
