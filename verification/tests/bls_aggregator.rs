use verinode_core::attestation::bls_aggregator::{
    BLSBatchVerificationCache, SignatureVerifierConfig, hash_message_to_root, sign_message,
    truncated_prefix_32, verify_batch_with_cache, xor_fold_32,
};
use verinode_core::crypto::bls_keys::{low_order_point, subgroup_member};

#[test]
fn test_cache_hit_and_miss_accounting() {
    let mut cache = BLSBatchVerificationCache::new(10);
    let root = [1u8; 32];
    let agg_idx = 100u64;

    assert_eq!(cache.get(&root, agg_idx), None);
    assert_eq!(cache.metrics().misses, 1);
    assert_eq!(cache.metrics().hits, 0);

    cache.insert(root, agg_idx, true);
    assert_eq!(cache.get(&root, agg_idx), Some(true));
    assert_eq!(cache.metrics().hits, 1);
    assert_eq!(cache.metrics().misses, 1);
    assert_eq!(cache.metrics().total_lookups(), 2);
    assert_eq!(cache.metrics().hit_ratio_bps(), 5_000);
}

#[test]
fn test_full_256_bit_collision_guard() {
    let mut cache = BLSBatchVerificationCache::new(10);
    let mut root_a = [0u8; 32];
    let mut root_b = [0u8; 32];

    // Share the same 32-bit prefix (first 4 bytes)
    root_a[0..4].copy_from_slice(&[0xAA, 0xBB, 0xCC, 0xDD]);
    root_b[0..4].copy_from_slice(&[0xAA, 0xBB, 0xCC, 0xDD]);

    // Differ in remaining bytes
    root_a[4] = 0x01;
    root_b[4] = 0x02;

    assert_eq!(truncated_prefix_32(&root_a), truncated_prefix_32(&root_b));
    assert_ne!(root_a, root_b);

    let agg_idx = 1;
    cache.insert(root_a, agg_idx, true);

    // root_b must NOT hit root_a's cached true
    assert_eq!(cache.get(&root_b, agg_idx), None);

    // Insert root_b as false
    cache.insert(root_b, agg_idx, false);

    // root_a returns true, root_b returns false
    assert_eq!(cache.get(&root_a, agg_idx), Some(true));
    assert_eq!(cache.get(&root_b, agg_idx), Some(false));
}

#[test]
fn test_xor_fold_collision_guard() {
    let mut cache = BLSBatchVerificationCache::new(10);
    let mut root_a = [0u8; 32];
    let mut root_b = [0u8; 32];

    // Same XOR fold by swapping chunks
    root_a[0] = 0x01;
    root_a[4] = 0x02;

    root_b[0] = 0x02;
    root_b[4] = 0x01;

    assert_eq!(xor_fold_32(&root_a), xor_fold_32(&root_b));
    assert_ne!(root_a, root_b);

    cache.insert(root_a, 42, true);
    assert_eq!(cache.get(&root_b, 42), None);
    assert_eq!(cache.get(&root_a, 42), Some(true));
}

#[test]
fn test_lru_eviction() {
    let mut cache = BLSBatchVerificationCache::new(2);
    let r1 = [1u8; 32];
    let r2 = [2u8; 32];
    let r3 = [3u8; 32];

    cache.insert(r1, 1, true);
    cache.insert(r2, 1, true);
    assert_eq!(cache.len(), 2);

    // Access r1 to make r2 the least recently used
    assert_eq!(cache.get(&r1, 1), Some(true));

    // Insert r3 -> should evict r2
    cache.insert(r3, 1, false);
    assert_eq!(cache.len(), 2);
    assert_eq!(cache.metrics().evictions, 1);

    assert_eq!(cache.get(&r2, 1), None);
    assert_eq!(cache.get(&r1, 1), Some(true));
    assert_eq!(cache.get(&r3, 1), Some(false));
}

#[test]
fn test_verify_batch_with_cache_integration() {
    let mut cache = BLSBatchVerificationCache::new(10);
    let cfg = SignatureVerifierConfig::require_subgroup_check();

    let pk1 = subgroup_member(1);
    let pk2 = subgroup_member(2);
    let rogue = low_order_point(0);

    let msg = b"signed-payload";
    let sig1 = sign_message(&pk1, msg);
    let sig2 = sign_message(&pk2, msg);

    let valid_pks = vec![pk1, pk2];
    let valid_sigs = vec![sig1, sig2];

    let agg_idx = 10;

    // First verification: cache miss
    assert!(verify_batch_with_cache(
        cfg,
        &mut cache,
        &valid_pks,
        msg,
        &valid_sigs,
        agg_idx
    ));
    assert_eq!(cache.metrics().misses, 1);
    assert_eq!(cache.metrics().hits, 0);

    // Second verification: cache hit
    assert!(verify_batch_with_cache(
        cfg,
        &mut cache,
        &valid_pks,
        msg,
        &valid_sigs,
        agg_idx
    ));
    assert_eq!(cache.metrics().hits, 1);

    // Rogue key verification fails and caches false
    let invalid_pks = vec![rogue];
    let invalid_sigs = vec![sign_message(&rogue, msg)];
    let bad_agg_idx = 20;

    assert!(!verify_batch_with_cache(
        cfg,
        &mut cache,
        &invalid_pks,
        msg,
        &invalid_sigs,
        bad_agg_idx
    ));
    assert_eq!(
        cache.peek(&hash_message_to_root(msg), bad_agg_idx),
        Some(false)
    );
}
