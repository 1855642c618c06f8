use verinode_core::consensus::slashing::detector::{OffenseType, UNAVAILABILITY_THRESHOLD};
use verinode_core::consensus::slashing::evidence::{
    EvidenceError, EvidenceStore, VerificationResult,
};
use verinode_core::consensus::view_change::types::PublicKey;

fn pk(id: u8) -> PublicKey {
    let mut k = [0u8; 32];
    k[31] = id;
    k
}

// ── helpers to build valid evidence bytes ─────────────────────────────────

fn equivocation_evidence(height: u64, hash_a: u8, hash_b: u8) -> Vec<u8> {
    let mut buf = Vec::with_capacity(72);
    buf.extend_from_slice(&height.to_le_bytes());
    let mut ha = [0u8; 32];
    ha[31] = hash_a;
    let mut hb = [0u8; 32];
    hb[31] = hash_b;
    buf.extend_from_slice(&ha);
    buf.extend_from_slice(&hb);
    buf
}

fn unavailability_evidence(missed: u64, window_start: u64) -> Vec<u8> {
    let mut buf = Vec::with_capacity(16);
    buf.extend_from_slice(&missed.to_le_bytes());
    buf.extend_from_slice(&window_start.to_le_bytes());
    buf
}

fn invalid_proposal_evidence(height: u64) -> Vec<u8> {
    equivocation_evidence(height, 1, 1) // same hashes are fine for InvalidProposal
}

// ── verify_fraud_proof ────────────────────────────────────────────────────

#[test]
fn equivocation_valid_evidence() {
    let ev = equivocation_evidence(100, 1, 2);
    assert_eq!(
        EvidenceStore::verify_fraud_proof(OffenseType::Equivocation, &ev),
        VerificationResult::Valid
    );
}

#[test]
fn equivocation_same_hashes_no_conflict() {
    let ev = equivocation_evidence(100, 5, 5);
    assert_eq!(
        EvidenceStore::verify_fraud_proof(OffenseType::Equivocation, &ev),
        VerificationResult::NoConflict
    );
}

#[test]
fn equivocation_zero_height_invalid() {
    let ev = equivocation_evidence(0, 1, 2);
    assert_eq!(
        EvidenceStore::verify_fraud_proof(OffenseType::Equivocation, &ev),
        VerificationResult::InvalidFormat
    );
}

#[test]
fn equivocation_too_short_invalid() {
    let ev = vec![0u8; 10];
    assert_eq!(
        EvidenceStore::verify_fraud_proof(OffenseType::Equivocation, &ev),
        VerificationResult::InvalidFormat
    );
}

#[test]
fn unavailability_valid_evidence() {
    let ev = unavailability_evidence(UNAVAILABILITY_THRESHOLD + 1, 0);
    assert_eq!(
        EvidenceStore::verify_fraud_proof(OffenseType::Unavailability, &ev),
        VerificationResult::Valid
    );
}

#[test]
fn unavailability_at_threshold_invalid() {
    // Must be strictly greater than threshold.
    let ev = unavailability_evidence(UNAVAILABILITY_THRESHOLD, 0);
    assert_eq!(
        EvidenceStore::verify_fraud_proof(OffenseType::Unavailability, &ev),
        VerificationResult::ThresholdNotExceeded
    );
}

#[test]
fn invalid_proposal_valid_evidence() {
    let ev = invalid_proposal_evidence(42);
    assert_eq!(
        EvidenceStore::verify_fraud_proof(OffenseType::InvalidProposal, &ev),
        VerificationResult::Valid
    );
}

// ── EvidenceStore::submit ─────────────────────────────────────────────────

#[test]
fn submit_valid_equivocation_returns_id() {
    let mut store = EvidenceStore::new();
    let ev = equivocation_evidence(100, 1, 2);
    let id = store
        .submit(pk(99), pk(1), OffenseType::Equivocation, ev, 500)
        .unwrap();
    assert_eq!(id, 0);
    assert_eq!(store.len(), 1);
}

#[test]
fn submit_invalid_evidence_rejected() {
    let mut store = EvidenceStore::new();
    let bad_ev = equivocation_evidence(100, 5, 5); // same hashes
    let err = store
        .submit(pk(99), pk(1), OffenseType::Equivocation, bad_ev, 500)
        .unwrap_err();
    assert_eq!(
        err,
        EvidenceError::VerificationFailed(VerificationResult::NoConflict)
    );
    assert!(store.is_empty());
}

#[test]
fn multiple_submissions_get_sequential_ids() {
    let mut store = EvidenceStore::new();
    let ev = equivocation_evidence(1, 1, 2);
    let id0 = store
        .submit(pk(99), pk(1), OffenseType::Equivocation, ev.clone(), 100)
        .unwrap();
    let id1 = store
        .submit(pk(98), pk(2), OffenseType::Equivocation, ev, 200)
        .unwrap();
    assert_eq!(id0, 0);
    assert_eq!(id1, 1);
}

#[test]
fn get_returns_submission() {
    let mut store = EvidenceStore::new();
    let ev = equivocation_evidence(7, 3, 9);
    let id = store
        .submit(pk(10), pk(2), OffenseType::Equivocation, ev.clone(), 300)
        .unwrap();
    let sub = store.get(id).unwrap();
    assert_eq!(sub.validator_id, pk(2));
    assert_eq!(sub.bond, 300);
    assert_eq!(sub.evidence, ev);
}

#[test]
fn remove_returns_submission_and_clears_it() {
    let mut store = EvidenceStore::new();
    let ev = equivocation_evidence(3, 1, 2);
    let id = store
        .submit(pk(1), pk(2), OffenseType::Equivocation, ev, 50)
        .unwrap();
    let removed = store.remove(id).unwrap();
    assert_eq!(removed.submission_id, id);
    assert!(store.get(id).is_none());
    assert!(store.is_empty());
}
