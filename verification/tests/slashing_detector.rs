use verinode_core::consensus::slashing::detector::{
    ATTESTATION_WINDOW_SECS, OffenseType, SlashingConditionDetector, UNAVAILABILITY_THRESHOLD,
};
use verinode_core::consensus::view_change::types::{BlockHash, PublicKey};

fn pk(id: u8) -> PublicKey {
    let mut k = [0u8; 32];
    k[31] = id;
    k
}

fn hash(id: u8) -> BlockHash {
    let mut h = [0u8; 32];
    h[31] = id;
    h
}

// ── equivocation ──────────────────────────────────────────────────────────

#[test]
fn first_proposal_recorded_no_violation() {
    let mut det = SlashingConditionDetector::new();
    let result = det.observe_proposal(pk(1), 10, hash(1), true);
    assert!(result.is_none());
    assert_eq!(det.tracked_proposal_count(), 1);
    assert!(det.violations().is_empty());
}

#[test]
fn duplicate_proposal_deduplicated() {
    let mut det = SlashingConditionDetector::new();
    det.observe_proposal(pk(1), 10, hash(1), true);
    let result = det.observe_proposal(pk(1), 10, hash(1), true);
    assert!(result.is_none());
    assert!(det.violations().is_empty());
}

#[test]
fn conflicting_proposal_triggers_equivocation() {
    let mut det = SlashingConditionDetector::new();
    det.observe_proposal(pk(1), 10, hash(1), true);
    let v = det.observe_proposal(pk(1), 10, hash(2), true).unwrap();
    assert_eq!(v.validator_id, pk(1));
    assert_eq!(v.offense_type, OffenseType::Equivocation);
    // evidence: 8 (height) + 32 + 32 = 72 bytes
    assert_eq!(v.evidence.len(), 72);
    // height encoded as little-endian at start
    assert_eq!(u64::from_le_bytes(v.evidence[..8].try_into().unwrap()), 10);
}

#[test]
fn different_validators_same_height_no_equivocation() {
    let mut det = SlashingConditionDetector::new();
    det.observe_proposal(pk(1), 5, hash(1), true);
    let result = det.observe_proposal(pk(2), 5, hash(2), true);
    assert!(result.is_none());
}

// ── invalid proposal ──────────────────────────────────────────────────────

#[test]
fn invalid_proposal_triggers_violation() {
    let mut det = SlashingConditionDetector::new();
    let v = det.observe_proposal(pk(3), 7, hash(10), false).unwrap();
    assert_eq!(v.offense_type, OffenseType::InvalidProposal);
    assert_eq!(v.validator_id, pk(3));
}

// ── unavailability ────────────────────────────────────────────────────────

#[test]
fn missed_attestations_below_threshold_no_violation() {
    let mut det = SlashingConditionDetector::new();
    for i in 0..UNAVAILABILITY_THRESHOLD {
        let r = det.record_missed_attestation(pk(1), 1000 + i);
        assert!(r.is_none());
    }
    assert_eq!(det.missed_count(&pk(1)), UNAVAILABILITY_THRESHOLD);
}

#[test]
fn missed_attestations_above_threshold_triggers_violation() {
    let mut det = SlashingConditionDetector::new();
    // Fill to exactly threshold — no violation yet.
    for i in 0..UNAVAILABILITY_THRESHOLD {
        det.record_missed_attestation(pk(1), 1000 + i);
    }
    // One more pushes it over.
    let v = det
        .record_missed_attestation(pk(1), 1000 + UNAVAILABILITY_THRESHOLD)
        .unwrap();
    assert_eq!(v.offense_type, OffenseType::Unavailability);
    assert_eq!(v.validator_id, pk(1));
    // evidence: 8 (count) + 8 (window_start) = 16 bytes
    assert_eq!(v.evidence.len(), 16);
}

#[test]
fn attestation_window_resets_after_24h() {
    let mut det = SlashingConditionDetector::new();
    // Record UNAVAILABILITY_THRESHOLD misses.
    for i in 0..UNAVAILABILITY_THRESHOLD {
        det.record_missed_attestation(pk(1), i);
    }
    assert_eq!(det.missed_count(&pk(1)), UNAVAILABILITY_THRESHOLD);

    // Advance time past the 24-hour window — counter should reset.
    let new_time = ATTESTATION_WINDOW_SECS + 1;
    det.record_missed_attestation(pk(1), new_time);
    // After reset the count is 1 (just the new miss).
    assert_eq!(det.missed_count(&pk(1)), 1);
}

#[test]
fn drain_violations_clears_log() {
    let mut det = SlashingConditionDetector::new();
    det.observe_proposal(pk(1), 1, hash(1), true);
    det.observe_proposal(pk(1), 1, hash(2), true); // equivocation
    assert_eq!(det.violations().len(), 1);
    let drained = det.drain_violations();
    assert_eq!(drained.len(), 1);
    assert!(det.violations().is_empty());
}
