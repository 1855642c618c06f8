use verinode_core::consensus::proposal::equivocation_detector::{
    EquivocationDetector, EquivocationError, Proposal,
};
use verinode_core::consensus::view_change::types::{AggregateSignature, BlockHash, PublicKey};

fn pk(id: u8) -> PublicKey {
    let mut k = [0u8; 32];
    k[31] = id;
    k
}

fn hash(id: u8) -> BlockHash {
    let mut h = [0u8; 32];
    h[31] = id;
    h
}

fn sig(id: u8) -> AggregateSignature {
    let mut s = [1u8; 96]; // non-zero so it passes the signature check
    s[95] = id;
    s
}

fn proposal(height: u64, proposer_id: u8, block_id: u8) -> Proposal {
    Proposal::new(height, pk(proposer_id), hash(block_id), sig(block_id))
}

// ─── happy-path ───────────────────────────────────────────────────────────

#[test]
fn first_proposal_is_recorded_no_proof() {
    let mut det = EquivocationDetector::new();
    let result = det.observe(proposal(1, 1, 1)).unwrap();
    assert!(result.is_none());
    assert_eq!(det.tracked_count(), 1);
    assert!(det.proofs().is_empty());
}

#[test]
fn duplicate_proposal_is_deduplicated_no_proof() {
    let mut det = EquivocationDetector::new();
    det.observe(proposal(1, 1, 1)).unwrap();
    let result = det.observe(proposal(1, 1, 1)).unwrap();
    assert!(result.is_none());
    assert_eq!(det.tracked_count(), 1);
    assert!(det.proofs().is_empty());
}

#[test]
fn different_proposers_same_height_no_proof() {
    let mut det = EquivocationDetector::new();
    det.observe(proposal(5, 1, 10)).unwrap();
    let result = det.observe(proposal(5, 2, 20)).unwrap(); // different proposer
    assert!(result.is_none());
    assert_eq!(det.tracked_count(), 2);
}

// ─── equivocation detection ────────────────────────────────────────────────

#[test]
fn conflicting_proposals_produce_equivocation_proof() {
    let mut det = EquivocationDetector::new();
    let p1 = proposal(3, 7, 1);
    let p2 = proposal(3, 7, 2); // same (height=3, proposer=7), different block

    det.observe(p1.clone()).unwrap();
    let result = det.observe(p2.clone()).unwrap();

    let proof = result.expect("expected equivocation proof");
    assert_eq!(proof.height, 3);
    assert_eq!(proof.proposer, pk(7));
    assert_eq!(proof.proposal_a, p1);
    assert_eq!(proof.proposal_b, p2);

    assert_eq!(det.proofs().len(), 1);
}

#[test]
fn multiple_equivocations_accumulate_proofs() {
    let mut det = EquivocationDetector::new();

    // Equivocation at height 1
    det.observe(proposal(1, 1, 10)).unwrap();
    det.observe(proposal(1, 1, 11)).unwrap();

    // Equivocation at height 2
    det.observe(proposal(2, 2, 20)).unwrap();
    det.observe(proposal(2, 2, 21)).unwrap();

    assert_eq!(det.proofs().len(), 2);

    let drained = det.drain_proofs();
    assert_eq!(drained.len(), 2);
    assert!(det.proofs().is_empty()); // drained
}

// ─── error paths ──────────────────────────────────────────────────────────

#[test]
fn zero_signature_is_rejected() {
    let mut det = EquivocationDetector::new();
    let bad = Proposal::new(1, pk(1), hash(1), [0u8; 96]);
    let err = det.observe(bad).unwrap_err();
    assert_eq!(err, EquivocationError::InvalidSignature);
    assert_eq!(det.tracked_count(), 0);
}
