use std::cmp::Ordering;

use verinode_core::consensus::view_change::types::{
    AggregateSignature, BlockHash, PublicKey, QC, compute_public_key_set_hash,
};

fn dummy_pk(id: u8) -> PublicKey {
    let mut pk = [0u8; 32];
    pk[31] = id;
    pk
}

fn dummy_hash(id: u8) -> BlockHash {
    let mut h = [0u8; 32];
    h[31] = id;
    h
}

fn dummy_sig(id: u8) -> AggregateSignature {
    let mut sig = [0u8; 96];
    sig[95] = id;
    sig
}

#[test]
fn test_public_key_set_hash_is_order_independent() {
    let pk1 = dummy_pk(1);
    let pk2 = dummy_pk(2);
    let pk3 = dummy_pk(3);

    let hash_a = compute_public_key_set_hash(&[pk1, pk2, pk3]);
    let hash_b = compute_public_key_set_hash(&[pk3, pk1, pk2]);
    let hash_c = compute_public_key_set_hash(&[pk2, pk3, pk1, pk1]); // with duplicate

    assert_eq!(hash_a, hash_b);
    assert_eq!(hash_a, hash_c);
}

#[test]
fn test_tie_breaking_higher_qc_epoch_wins() {
    let qc1 = QC::new(10, 1, dummy_hash(1), vec![dummy_pk(1)], dummy_sig(1));
    let qc2 = QC::new(10, 2, dummy_hash(2), vec![dummy_pk(2)], dummy_sig(2));

    assert_eq!(qc2.tie_break_cmp(&qc1), Ordering::Greater);
    assert_eq!(qc1.tie_break_cmp(&qc2), Ordering::Less);
}

#[test]
fn test_tie_breaking_equal_epoch_uses_public_key_hash() {
    let pk_a = dummy_pk(10);
    let pk_b = dummy_pk(20);

    let qc_a = QC::new(10, 5, dummy_hash(1), vec![pk_a], dummy_sig(1));
    let qc_b = QC::new(10, 5, dummy_hash(2), vec![pk_b], dummy_sig(2));

    let hash_a = qc_a.public_key_set_hash();
    let hash_b = qc_b.public_key_set_hash();
    assert_ne!(hash_a, hash_b);

    let expected_ord = hash_a.cmp(&hash_b);
    assert_eq!(qc_a.tie_break_cmp(&qc_b), expected_ord);
}

#[test]
fn test_is_conflict_detection() {
    let qc1 = QC::new(10, 1, dummy_hash(1), vec![dummy_pk(1)], dummy_sig(1));
    let qc2 = QC::new(10, 2, dummy_hash(2), vec![dummy_pk(2)], dummy_sig(2));
    let qc3 = QC::new(11, 1, dummy_hash(1), vec![dummy_pk(1)], dummy_sig(1));

    assert!(qc1.is_conflict(&qc2));
    assert!(!qc1.is_conflict(&qc1));
    assert!(!qc1.is_conflict(&qc3)); // different view
}
