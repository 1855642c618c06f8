use verinode_core::attestation::proof_of_connectivity::ConnectivityProtocol;
use verinode_core::attestation::types::{
    BLACKLIST_DURATION_SECS, CHALLENGE_TIMEOUT_SECS, ChallengeResponse, ConnectivityError,
    EpochId, MAX_FAILED_CHALLENGES, NodeId, RandomSeed,
};

fn node(seed: u8) -> NodeId {
    let mut n = [0u8; 32];
    n[0] = seed;
    n
}

fn seed(v: u64) -> RandomSeed {
    RandomSeed::from_counter(v)
}

/// Happy path: fresh nonce, correct response, within epoch window.
#[test]
fn test_verify_valid_challenge() {
    let mut proto = ConnectivityProtocol::new();
    let nid = node(1);
    let epoch: EpochId = 5;
    let now: u64 = 1000;

    let challenge = proto.issue_challenge(nid, epoch, &seed(1), now).unwrap();
    let response = ChallengeResponse::from_challenge(&challenge);
    assert!(proto.verify(&challenge, &response, epoch, now).is_ok());
}

/// Epoch too old: challenge is from epoch 0, current is 3 → rejected.
#[test]
fn test_reject_epoch_too_old() {
    let mut proto = ConnectivityProtocol::new();
    let nid = node(2);
    let now: u64 = 500;

    let challenge = proto.issue_challenge(nid, 0, &seed(2), now).unwrap();
    let response = ChallengeResponse::from_challenge(&challenge);
    let err = proto.verify(&challenge, &response, 3, now).unwrap_err();
    assert_eq!(err, ConnectivityError::EpochTooOld);
}

/// Boundary: exactly REPLAY_EPOCH_WINDOW behind → still accepted.
#[test]
fn test_epoch_at_replay_window_boundary_accepted() {
    let mut proto = ConnectivityProtocol::new();
    let nid = node(3);
    let now: u64 = 100;

    // Issued at epoch 1; current epoch is 3. Difference = 2 = REPLAY_EPOCH_WINDOW → OK.
    let challenge = proto.issue_challenge(nid, 1, &seed(3), now).unwrap();
    let response = ChallengeResponse::from_challenge(&challenge);
    assert!(proto.verify(&challenge, &response, 3, now).is_ok());
}

/// Boundary + 1: issued at epoch 0, current epoch 3 → rejected.
#[test]
fn test_epoch_one_past_boundary_rejected() {
    let mut proto = ConnectivityProtocol::new();
    let nid = node(4);
    let now: u64 = 100;

    let challenge = proto.issue_challenge(nid, 0, &seed(4), now).unwrap();
    let response = ChallengeResponse::from_challenge(&challenge);
    let err = proto.verify(&challenge, &response, 3, now).unwrap_err();
    assert_eq!(err, ConnectivityError::EpochTooOld);
}

/// Nonce reuse within the same epoch window is rejected.
#[test]
fn test_reject_nonce_reuse() {
    let mut proto = ConnectivityProtocol::new();
    let nid = node(5);
    let epoch: EpochId = 10;
    let now: u64 = 2000;

    let challenge = proto.issue_challenge(nid, epoch, &seed(5), now).unwrap();
    let response = ChallengeResponse::from_challenge(&challenge);

    // First verify succeeds and inserts nonce into cache.
    assert!(proto.verify(&challenge, &response, epoch, now).is_ok());

    // Re-submit the same challenge — nonce is already in cache.
    assert_eq!(
        proto.verify(&challenge, &response, epoch, now).unwrap_err(),
        ConnectivityError::NonceReused
    );
}

/// Expired challenge (wall clock > issued_at + CHALLENGE_TIMEOUT_SECS).
#[test]
fn test_reject_expired_challenge() {
    let mut proto = ConnectivityProtocol::new();
    let nid = node(6);
    let epoch: EpochId = 4;
    let issued_at: u64 = 0;

    let challenge = proto
        .issue_challenge(nid, epoch, &seed(6), issued_at)
        .unwrap();
    let response = ChallengeResponse::from_challenge(&challenge);

    // Advance wall clock past the 5 s timeout.
    let now = issued_at + CHALLENGE_TIMEOUT_SECS + 1;
    let err = proto.verify(&challenge, &response, epoch, now).unwrap_err();
    assert_eq!(err, ConnectivityError::ChallengeExpired);
}

/// Response mismatch: echo the wrong nonce.
#[test]
fn test_reject_response_mismatch() {
    let mut proto = ConnectivityProtocol::new();
    let nid = node(7);
    let epoch: EpochId = 2;
    let now: u64 = 100;

    let challenge = proto.issue_challenge(nid, epoch, &seed(7), now).unwrap();
    let mut response = ChallengeResponse::from_challenge(&challenge);
    // Tamper with the echoed nonce.
    response.nonce[0] ^= 0xff;

    let err = proto.verify(&challenge, &response, epoch, now).unwrap_err();
    // The tampered nonce is novel so cache accepts it, but the match check fails.
    assert_eq!(err, ConnectivityError::ResponseMismatch);
}

/// Node blacklisting after MAX_FAILED_CHALLENGES consecutive failures.
#[test]
fn test_blacklist_after_max_failures() {
    let mut proto = ConnectivityProtocol::new();
    let nid = node(8);
    let epoch: EpochId = 1;
    let now: u64 = 0;

    // Drive MAX_FAILED_CHALLENGES failures using out-of-epoch challenges.
    for _ in 0..MAX_FAILED_CHALLENGES {
        // Issue at epoch 0; verify at epoch 3 → EpochTooOld → failure.
        let challenge = proto.issue_challenge(nid, 0, &seed(99), now).unwrap();
        let response = ChallengeResponse::from_challenge(&challenge);
        let _ = proto.verify(&challenge, &response, 3, now);
    }

    // Node must now be blacklisted.
    assert!(proto.is_blacklisted(&nid, now));

    // Attempting to issue a new challenge while blacklisted → error.
    let err = proto
        .issue_challenge(nid, epoch, &seed(99), now)
        .unwrap_err();
    assert_eq!(err, ConnectivityError::NodeBlacklisted);
}

/// After BLACKLIST_DURATION_SECS the node is no longer blacklisted.
#[test]
fn test_blacklist_expires() {
    let mut proto = ConnectivityProtocol::new();
    let nid = node(9);
    let now: u64 = 0;

    // Trigger blacklisting.
    for _ in 0..MAX_FAILED_CHALLENGES {
        let challenge = proto.issue_challenge(nid, 0, &seed(77), now).unwrap();
        let response = ChallengeResponse::from_challenge(&challenge);
        let _ = proto.verify(&challenge, &response, 3, now);
    }

    assert!(proto.is_blacklisted(&nid, now));

    // Advance time past the blacklist window.
    let later = now + BLACKLIST_DURATION_SECS + 1;
    assert!(!proto.is_blacklisted(&nid, later));
}

/// `advance_epoch` must expire old nonces from the cache so they cannot
/// occupy memory forever.
#[test]
fn test_advance_epoch_expires_cache() {
    let mut proto = ConnectivityProtocol::new();
    let nid = node(10);
    let now: u64 = 0;

    // Issue and verify a challenge at epoch 0.
    let challenge = proto.issue_challenge(nid, 0, &seed(10), now).unwrap();
    let response = ChallengeResponse::from_challenge(&challenge);
    proto.verify(&challenge, &response, 0, now).unwrap();

    // Advance to epoch 3 — epoch-0 nonce must be purged.
    proto.advance_epoch(3);

    // The same nonce can now be inserted again (it was evicted).
    assert!(proto.cache.insert(challenge.nonce, 3));
}
