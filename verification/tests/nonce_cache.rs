use verinode_core::attestation::nonce_cache::NonceCache;
use verinode_core::attestation::types::Nonce;

fn nonce(seed: u8) -> Nonce {
    let mut n = [0u8; 32];
    n[0] = seed;
    n
}

#[test]
fn test_insert_and_lookup() {
    let mut cache = NonceCache::new();
    let n = nonce(1);
    assert!(!cache.contains(&n));
    assert!(cache.insert(n, 0));
    assert!(cache.contains(&n));
}

#[test]
fn test_duplicate_insert_returns_false() {
    let mut cache = NonceCache::new();
    let n = nonce(2);
    assert!(cache.insert(n, 1));
    assert!(!cache.insert(n, 1), "duplicate must be rejected");
}

#[test]
fn test_expire_removes_old_epochs() {
    let mut cache = NonceCache::new();
    // Epoch 0 nonces — will be expired when current epoch reaches 3.
    cache.insert(nonce(10), 0);
    cache.insert(nonce(11), 0);
    // Epoch 1 nonces — still inside the window at epoch 3.
    cache.insert(nonce(20), 1);
    // Epoch 3 nonce — always inside the window.
    cache.insert(nonce(30), 3);

    // Current epoch = 3: entries from epoch 0 are >2 behind → expired.
    cache.expire(3);

    assert!(!cache.contains(&nonce(10)), "epoch-0 nonce must be expired");
    assert!(!cache.contains(&nonce(11)), "epoch-0 nonce must be expired");
    assert!(
        cache.contains(&nonce(20)),
        "epoch-1 nonce must still be live"
    );
    assert!(
        cache.contains(&nonce(30)),
        "epoch-3 nonce must still be live"
    );
}

#[test]
fn test_expire_keeps_entries_within_window() {
    let mut cache = NonceCache::new();
    for epoch in 0u32..=4 {
        cache.insert(nonce(epoch as u8), epoch);
    }
    // At current_epoch = 4: epochs 0 and 1 are >2 behind (4-0=4, 4-1=3).
    cache.expire(4);
    assert!(!cache.contains(&nonce(0)));
    assert!(!cache.contains(&nonce(1)));
    assert!(cache.contains(&nonce(2)));
    assert!(cache.contains(&nonce(3)));
    assert!(cache.contains(&nonce(4)));
}

#[test]
fn test_expire_at_epoch_boundary() {
    let mut cache = NonceCache::new();
    // Exactly at the window boundary: epoch 0 at current epoch 2.
    cache.insert(nonce(1), 0);
    // 2 - 0 = 2, which is NOT > REPLAY_EPOCH_WINDOW (2) → retained.
    cache.expire(2);
    assert!(
        cache.contains(&nonce(1)),
        "nonce exactly at boundary must be retained"
    );

    // Now advance one more epoch: 3 - 0 = 3 > 2 → expired.
    cache.expire(3);
    assert!(
        !cache.contains(&nonce(1)),
        "nonce past boundary must be expired"
    );
}

#[test]
fn test_empty_expire_is_noop() {
    let mut cache = NonceCache::new();
    cache.expire(100); // Must not panic.
    assert!(cache.is_empty());
}
