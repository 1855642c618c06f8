use verinode_core::consensus::view_change::resolver::{QcProcessOutcome, ViewChangeResolver};
use verinode_core::consensus::view_change::types::{
    AggregateSignature, BlockHash, PublicKey, QC, ViewChangeEvent,
};

fn dummy_pk(id: u8) -> PublicKey {
    let mut pk = [0u8; 32];
    pk[31] = id;
    pk
}

fn dummy_hash(id: u8) -> BlockHash {
    let mut h = [0u8; 32];
    h[31] = id;
    h
}

fn dummy_sig(id: u8) -> AggregateSignature {
    let mut sig = [0u8; 96];
    sig[95] = id;
    sig
}

#[test]
fn test_proposal_increments_epoch_monotonically() {
    let mut resolver = ViewChangeResolver::new(1);
    assert_eq!(resolver.current_qc_epoch(), 0);

    let qc1 = resolver
        .create_proposal(1, dummy_hash(1), vec![dummy_pk(1)], dummy_sig(1))
        .unwrap();
    assert_eq!(qc1.qc_epoch, 1);
    assert_eq!(resolver.current_qc_epoch(), 1);

    let qc2 = resolver
        .create_proposal(1, dummy_hash(2), vec![dummy_pk(2)], dummy_sig(2))
        .unwrap();
    assert_eq!(qc2.qc_epoch, 2);
    assert_eq!(resolver.current_qc_epoch(), 2);
}

#[test]
fn test_conflict_resolution_higher_epoch_supersedes() {
    let mut resolver = ViewChangeResolver::new(10);
    let qc1 = QC::new(10, 1, dummy_hash(1), vec![dummy_pk(1)], dummy_sig(1));
    let qc2 = QC::new(10, 3, dummy_hash(2), vec![dummy_pk(2)], dummy_sig(2));

    // Accept qc1 initially.
    assert_eq!(
        resolver.process_qc(qc1.clone()).unwrap(),
        QcProcessOutcome::AcceptedNew
    );
    assert_eq!(resolver.get_accepted_qc(10), Some(&qc1));

    // Process conflicting qc2 with higher epoch (3 > 1).
    let outcome = resolver.process_qc(qc2.clone()).unwrap();
    assert_eq!(outcome, QcProcessOutcome::ConflictResolvedAccepted);
    assert_eq!(resolver.get_accepted_qc(10), Some(&qc2));

    // qc1 is now quarantined.
    assert!(resolver.is_quarantined(&qc1));
    assert!(!resolver.is_quarantined(&qc2));

    // Verify conflict event was emitted.
    let events = resolver.events();
    assert!(events.iter().any(|e| matches!(
        e,
        ViewChangeEvent::QcConflictDetected {
            view: 10,
            qc_epoch_a: 1,
            qc_epoch_b: 3
        }
    )));
}

#[test]
fn test_conflict_resolution_lower_epoch_quarantined() {
    let mut resolver = ViewChangeResolver::new(10);
    let qc1 = QC::new(10, 5, dummy_hash(1), vec![dummy_pk(1)], dummy_sig(1));
    let qc2 = QC::new(10, 2, dummy_hash(2), vec![dummy_pk(2)], dummy_sig(2));

    // Accept qc1 (epoch 5).
    assert_eq!(
        resolver.process_qc(qc1.clone()).unwrap(),
        QcProcessOutcome::AcceptedNew
    );

    // Process qc2 (epoch 2 < 5).
    let outcome = resolver.process_qc(qc2.clone()).unwrap();
    assert_eq!(outcome, QcProcessOutcome::ConflictResolvedQuarantined);
    assert_eq!(resolver.get_accepted_qc(10), Some(&qc1));
    assert!(resolver.is_quarantined(&qc2));
}
