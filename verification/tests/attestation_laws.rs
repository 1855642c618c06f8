use verinode_core::attestation::bls_aggregator::{
    sign_message, truncated_prefix_32, verify_aggregate, verify_batch_items_with_cache,
    verify_batch_root_with_cache, verify_batch_with_cache, verify_single_signature, xor_fold_32,
    BLSBatchItem, BLSBatchVerificationCache, BLSCacheEntry, BLSCacheKey, BLSCacheMetrics,
    SignatureVerifierConfig, DEFAULT_BLS_CACHE_CAPACITY,
};
use verinode_core::attestation::nonce_cache::NonceCache;
use verinode_core::attestation::proof_of_connectivity::ConnectivityProtocol;
use verinode_core::attestation::relay_ticket::{
    verify_relay_ticket, IpAddress, RelayTicket, RelayTicketError, SocketEndpoint,
    RELAY_TICKET_ENCODED_LEN,
};
use verinode_core::attestation::types::{
    Challenge, ChallengeResponse, ConnectivityError, NodeFailureRecord, RandomSeed,
};
use verinode_core::crypto::bls_keys::{low_order_point, subgroup_member};

const FORK: [u8; 4] = [0, 0, 0, 0];

#[test]
fn limit_of_failures_bars_for_the_full_duration() {
    let mut record = NodeFailureRecord::default();
    record.record_failure(10);
    record.record_failure(20);
    assert!(!record.is_blacklisted(20));
    record.record_failure(30);
    assert!(record.is_blacklisted(30));
    assert!(record.is_blacklisted(89));
    assert!(!record.is_blacklisted(90));
    assert_eq!(record.failed_count, 0);
}

#[test]
fn success_resets_the_failure_count_only() {
    let mut record = NodeFailureRecord {
        failed_count: 2,
        blacklisted_until: 77,
    };
    record.record_success();
    assert_eq!(record.failed_count, 0);
    assert_eq!(record.blacklisted_until, 77);
}

#[test]
fn challenge_expires_after_its_timeout() {
    let challenge = Challenge::new(1, [2u8; 32], [3u8; 32], 100);
    assert!(!challenge.is_expired(50));
    assert!(!challenge.is_expired(105));
    assert!(challenge.is_expired(106));
}

#[test]
fn nonce_cache_keeps_the_first_epoch_and_expires_by_window() {
    let mut cache = NonceCache::default();
    assert!(cache.is_empty());
    assert!(cache.insert([1u8; 32], 4));
    assert!(!cache.insert([1u8; 32], 9));
    cache.insert([2u8; 32], 5);
    cache.expire(6);
    assert_eq!(cache.len(), 2);
    cache.expire(7);
    assert!(!cache.contains(&[1u8; 32]));
    assert!(cache.contains(&[2u8; 32]));
    assert_eq!(cache.len(), 1);
}

#[test]
fn accepted_nonce_is_refused_the_second_time_and_after_expiry() {
    let mut proto = ConnectivityProtocol::default();
    let node = [7u8; 32];
    let challenge = proto
        .issue_challenge(node, 4, &RandomSeed::from_counter(1), 1_000)
        .unwrap();
    assert_eq!(proto.pending_challenge(&node), Some(&challenge));
    let response = ChallengeResponse::from_challenge(&challenge);
    assert_eq!(proto.verify(&challenge, &response, 4, 1_001), Ok(()));
    assert_eq!(proto.pending_challenge(&node), None);
    assert_eq!(
        proto.verify(&challenge, &response, 6, 1_001),
        Err(ConnectivityError::NonceReused)
    );
    proto.advance_epoch(7);
    assert_eq!(
        proto.verify(&challenge, &response, 7, 1_001),
        Err(ConnectivityError::EpochTooOld)
    );
}

#[test]
fn every_rejection_counts_as_a_failure() {
    let mut proto = ConnectivityProtocol::new();
    let node = [8u8; 32];
    let challenge = proto
        .issue_challenge(node, 0, &RandomSeed::from_counter(2), 0)
        .unwrap();
    let response = ChallengeResponse::from_challenge(&challenge);
    for _ in 0..3 {
        assert_eq!(
            proto.verify(&challenge, &response, 3, 0),
            Err(ConnectivityError::EpochTooOld)
        );
    }
    assert!(proto.is_blacklisted(&node, 59));
    // Rejections of a blacklisted node count as well: three more extend the blacklisting.
    for _ in 0..3 {
        assert_eq!(
            proto.verify(&challenge, &response, 0, 30),
            Err(ConnectivityError::NodeBlacklisted)
        );
    }
    assert!(proto.is_blacklisted(&node, 89));
    assert!(!proto.is_blacklisted(&node, 90));
}

#[test]
fn cache_key_binds_root_and_aggregator() {
    let mut cache = BLSBatchVerificationCache::default();
    assert_eq!(cache.capacity(), DEFAULT_BLS_CACHE_CAPACITY);
    cache.insert([1u8; 32], 5, true);
    assert_eq!(cache.peek(&[1u8; 32], 5), Some(true));
    assert_eq!(cache.peek(&[1u8; 32], 6), None);
    assert_eq!(cache.peek(&[2u8; 32], 5), None);
    assert_eq!(cache.get_by_key(&BLSCacheKey::new([1u8; 32], 5)), Some(true));
    cache.insert_key(BLSCacheKey::new([1u8; 32], 5), false);
    assert_eq!(cache.len(), 1);
    assert_eq!(cache.get(&[1u8; 32], 5), Some(false));
    cache.reset_metrics();
    assert_eq!(cache.metrics(), BLSCacheMetrics::default());
    assert!(cache.contains(&[1u8; 32], 5));
    cache.clear();
    assert!(cache.is_empty());
}

#[test]
fn lookup_renews_an_entry_and_peek_does_not() {
    let mut cache = BLSBatchVerificationCache::with_capacity(2);
    cache.insert([1u8; 32], 0, true);
    cache.insert([2u8; 32], 0, true);
    cache.get(&[1u8; 32], 0);
    cache.insert([3u8; 32], 0, true);
    assert!(cache.contains(&[1u8; 32], 0));
    assert!(!cache.contains(&[2u8; 32], 0));
    cache.peek(&[1u8; 32], 0);
    cache.insert([4u8; 32], 0, true);
    assert!(!cache.contains(&[1u8; 32], 0));
    assert_eq!(cache.len(), 2);
    assert_eq!(cache.metrics().evictions, 2);
}

#[test]
fn hit_ratio_without_lookups_is_zero() {
    let metrics = BLSCacheMetrics::default();
    assert_eq!(metrics.total_lookups(), 0);
    assert_eq!(metrics.hit_ratio_bps(), 0);
    let third = BLSCacheMetrics {
        hits: 1,
        misses: 2,
        evictions: 0,
    };
    assert_eq!(third.hit_ratio_bps(), 3_333);
    let full = |hits: u64, misses: u64| BLSCacheMetrics {
        hits,
        misses,
        evictions: 0,
    };
    assert_eq!(full(u64::MAX, 0).hit_ratio_bps(), 10_000);
    assert_eq!(full(u64::MAX, u64::MAX).hit_ratio_bps(), 5_000);
    assert_eq!(full(u64::MAX, 1).total_lookups(), u64::MAX);
}

#[test]
fn nonce_of_a_wrong_answer_is_spent() {
    let mut proto = ConnectivityProtocol::new();
    let challenge = proto
        .issue_challenge([9u8; 32], 4, &RandomSeed::from_counter(3), 100)
        .unwrap();
    let wrong = ChallengeResponse {
        epoch_id: 5,
        ..ChallengeResponse::from_challenge(&challenge)
    };
    assert_eq!(
        proto.verify(&challenge, &wrong, 4, 100),
        Err(ConnectivityError::ResponseMismatch)
    );
    let right = ChallengeResponse::from_challenge(&challenge);
    assert_eq!(
        proto.verify(&challenge, &right, 4, 100),
        Err(ConnectivityError::NonceReused)
    );
}

#[test]
fn cache_entry_holds_what_it_is_given() {
    let entry = BLSCacheEntry::new([5u8; 32], 6, true, 7);
    assert_eq!(entry.full_message_root, [5u8; 32]);
    assert_eq!(entry.aggregator_index, 6);
    assert!(entry.is_valid);
    assert_eq!(entry.access_seq, 7);
}

#[test]
fn prefix_and_fold_are_little_endian() {
    let mut root = [0u8; 32];
    root[..8].copy_from_slice(&[1, 2, 3, 4, 0x10, 0x20, 0x30, 0x40]);
    assert_eq!(truncated_prefix_32(&root), 0x0403_0201);
    assert_eq!(xor_fold_32(&root), 0x0403_0201 ^ 0x4030_2010);
}

#[test]
fn aggregate_needs_every_signature() {
    let config = SignatureVerifierConfig::require_subgroup_check();
    let keys = [subgroup_member(1), subgroup_member(2)];
    let good = [sign_message(&keys[0], b"m"), sign_message(&keys[1], b"m")];
    assert!(verify_aggregate(config, &keys, b"m", &good));
    assert!(!verify_aggregate(config, &keys, b"n", &good));
    assert!(!verify_aggregate(config, &keys, b"m", &good[..1]));
    assert!(!verify_aggregate(config, &[], b"m", &[]));
    let swapped = [good[1], good[0]];
    assert!(!verify_aggregate(config, &keys, b"m", &swapped));
}

#[test]
fn low_order_keys_pass_on_a_test_network_only() {
    let key = low_order_point(1);
    let signature = sign_message(&key, b"m");
    assert!(!verify_single_signature(
        SignatureVerifierConfig::default(),
        &key,
        b"m",
        &signature
    ));
    assert!(verify_single_signature(
        SignatureVerifierConfig::test_network(),
        &key,
        b"m",
        &signature
    ));
}

#[test]
fn cached_answer_is_repeated_for_the_same_message() {
    let config = SignatureVerifierConfig::default();
    let mut cache = BLSBatchVerificationCache::new(4);
    let keys = [subgroup_member(3)];
    let good = [sign_message(&keys[0], b"m")];
    assert!(verify_batch_with_cache(config, &mut cache, &keys, b"m", &good, 1));
    assert!(verify_batch_with_cache(config, &mut cache, &keys, b"m", &[[0u8; 32]], 1));
    assert!(!verify_batch_with_cache(config, &mut cache, &keys, b"m", &[[0u8; 32]], 2));
    assert_eq!(cache.metrics().hits, 1);
    assert_eq!(cache.metrics().misses, 2);
}

#[test]
fn batch_over_a_root_signs_the_root() {
    let config = SignatureVerifierConfig::default();
    let mut cache = BLSBatchVerificationCache::new(4);
    let keys = [subgroup_member(4)];
    let root = [9u8; 32];
    let signatures = [sign_message(&keys[0], &root)];
    assert!(verify_batch_root_with_cache(config, &mut cache, &keys, &root, &signatures, 3));
    assert_eq!(cache.peek(&root, 3), Some(true));
}

#[test]
fn batch_of_items_fails_with_one_bad_item() {
    let config = SignatureVerifierConfig::default();
    let keys = [subgroup_member(5)];
    let good = [sign_message(&keys[0], b"a")];
    let item = |msg: &'static [u8], aggregator_index: u64| BLSBatchItem {
        public_keys: &keys,
        msg,
        signatures: &good,
        aggregator_index,
    };
    let mut cache = BLSBatchVerificationCache::new(8);
    assert!(verify_batch_items_with_cache(config, &mut cache, &[item(b"a", 1), item(b"a", 2)]));
    let mut cache = BLSBatchVerificationCache::new(8);
    assert!(!verify_batch_items_with_cache(
        config,
        &mut cache,
        &[item(b"b", 2), item(b"a", 1), item(b"a", 1)]
    ));
    // Every item is one lookup, also behind one that fails.
    assert_eq!(cache.metrics().misses, 2);
    assert_eq!(cache.metrics().hits, 1);
}

#[test]
fn endpoint_round_trip_and_rejections() {
    let v4 = SocketEndpoint::v4([1, 2, 3, 4], 0x0506);
    let encoded = v4.encode();
    assert_eq!(
        encoded,
        [4, 1, 2, 3, 4, 0, 0, 0, 0, 0, 0, 0, 0, 0, 0, 0, 0, 0x06, 0x05]
    );
    assert_eq!(SocketEndpoint::decode(&encoded), Ok(v4));
    let v6 = SocketEndpoint::v6([9u8; 16], 7);
    assert_eq!(SocketEndpoint::decode(&v6.encode()), Ok(v6));
    assert_eq!(v6.ip, IpAddress::V6([9u8; 16]));
    let mut bad_tag = encoded;
    bad_tag[0] = 5;
    assert_eq!(
        SocketEndpoint::decode(&bad_tag),
        Err(RelayTicketError::Malformed)
    );
    let mut padded = encoded;
    padded[16] = 1;
    assert_eq!(
        SocketEndpoint::decode(&padded),
        Err(RelayTicketError::Malformed)
    );
}

#[test]
fn ticket_round_trip_and_length() {
    let ticket = RelayTicket::sign(
        &[1u8; 32],
        [2u8; 32],
        [3u8; 32],
        SocketEndpoint::v4([4, 5, 6, 7], 8),
        9,
        10,
        FORK,
    );
    let bytes = ticket.encode();
    assert_eq!(bytes.len(), RELAY_TICKET_ENCODED_LEN);
    assert_eq!(RelayTicket::decode(&bytes), Ok(ticket));
    assert_eq!(
        RelayTicket::decode(&bytes[..RELAY_TICKET_ENCODED_LEN - 1]),
        Err(RelayTicketError::Malformed)
    );
    let mut longer = bytes.to_vec();
    longer.push(0);
    assert_eq!(
        RelayTicket::decode(&longer),
        Err(RelayTicketError::Malformed)
    );
}

#[test]
fn ticket_rejections_come_in_order() {
    let key = [1u8; 32];
    let target = [3u8; 32];
    let endpoint = SocketEndpoint::v4([4, 5, 6, 7], 8);
    let ticket = RelayTicket::sign(&key, [2u8; 32], target, endpoint, 10, 100, FORK);
    let verify = |epoch: u32, now: u64| {
        verify_relay_ticket(&ticket, &target, &endpoint, &key, epoch, now, FORK)
    };
    assert_eq!(verify(10, 99), Ok(()));
    assert_eq!(verify(11, 99), Ok(()));
    assert_eq!(verify(12, 99), Err(RelayTicketError::EpochStale));
    assert_eq!(verify(9, 99), Err(RelayTicketError::EpochFuture));
    assert_eq!(verify(10, 100), Err(RelayTicketError::Expired));
    assert_eq!(
        verify_relay_ticket(&ticket, &[4u8; 32], &endpoint, &key, 10, 99, FORK),
        Err(RelayTicketError::TargetMismatch)
    );
    assert_eq!(
        verify_relay_ticket(&ticket, &target, &endpoint, &[9u8; 32], 10, 99, FORK),
        Err(RelayTicketError::InvalidSignature)
    );
    assert_eq!(
        verify_relay_ticket(&ticket, &target, &endpoint, &key, 10, 99, [1, 0, 0, 0]),
        Err(RelayTicketError::InvalidSignature)
    );
}
