use verinode_core::attestation::nonce_generator::derive_nonce;
use verinode_core::attestation::types::{EpochId, NodeId, RandomSeed};

fn node(seed: u8) -> NodeId {
    let mut n = [0u8; 32];
    n[0] = seed;
    n
}

#[test]
fn test_derive_nonce_deterministic() {
    let seed = RandomSeed::from_counter(1);
    let nid = node(1);
    assert_eq!(derive_nonce(7, &seed, &nid), derive_nonce(7, &seed, &nid));
}

#[test]
fn test_different_epochs_produce_different_nonces() {
    let seed = RandomSeed::from_counter(42);
    let nid = node(5);
    let n0 = derive_nonce(0, &seed, &nid);
    let n1 = derive_nonce(1, &seed, &nid);
    assert_ne!(n0, n1, "same seed/node but different epochs must differ");
}

#[test]
fn test_different_seeds_produce_different_nonces() {
    let epoch: EpochId = 3;
    let nid = node(7);
    let n_a = derive_nonce(epoch, &RandomSeed::from_counter(10), &nid);
    let n_b = derive_nonce(epoch, &RandomSeed::from_counter(11), &nid);
    assert_ne!(n_a, n_b);
}

#[test]
fn test_different_nodes_produce_different_nonces() {
    let epoch: EpochId = 5;
    let seed = RandomSeed::from_counter(99);
    let n_a = derive_nonce(epoch, &seed, &node(1));
    let n_b = derive_nonce(epoch, &seed, &node(2));
    assert_ne!(n_a, n_b);
}

#[test]
fn test_nonce_is_256_bits() {
    let nonce = derive_nonce(0, &RandomSeed::from_counter(0), &node(0));
    assert_eq!(nonce.len(), 32, "nonce must be 256 bits (32 bytes)");
}
