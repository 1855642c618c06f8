use verinode_core::attestation::nonce_generator::derive_nonce;
use verinode_core::attestation::signing::{sign_root, verify_root};
use verinode_core::attestation::types::RandomSeed;
use verinode_core::crypto::blake2b::blake2b_256;
use verinode_core::crypto::bls_keys::{
    low_order_point, subgroup_check_g2, subgroup_member, COFACTOR, GROUP_ORDER, SUBGROUP_ORDER,
};
use verinode_core::crypto::domain::{
    compute_domain, DOMAIN_BEACON_ATTESTER, DOMAIN_RANDAO, GENESIS_FORK_VERSION,
};
use verinode_core::crypto::sha256::sha256;

#[test]
fn sha256_known_answers() {
    let expected: [u8; 32] = [
        0xe3, 0xb0, 0xc4, 0x42, 0x98, 0xfc, 0x1c, 0x14, 0x9a, 0xfb, 0xf4, 0xc8,
        0x99, 0x6f, 0xb9, 0x24, 0x27, 0xae, 0x41, 0xe4, 0x64, 0x9b, 0x93, 0x4c,
        0xa4, 0x95, 0x99, 0x1b, 0x78, 0x52, 0xb8, 0x55,
    ];
    assert_eq!(sha256(b""), expected);
    let expected: [u8; 32] = [
        0xba, 0x78, 0x16, 0xbf, 0x8f, 0x01, 0xcf, 0xea, 0x41, 0x41, 0x40, 0xde,
        0x5d, 0xae, 0x22, 0x23, 0xb0, 0x03, 0x61, 0xa3, 0x96, 0x17, 0x7a, 0x9c,
        0xb4, 0x10, 0xff, 0x61, 0xf2, 0x00, 0x15, 0xad,
    ];
    assert_eq!(sha256(b"abc"), expected);
    let expected: [u8; 32] = [
        0x24, 0x8d, 0x6a, 0x61, 0xd2, 0x06, 0x38, 0xb8, 0xe5, 0xc0, 0x26, 0x93,
        0x0c, 0x3e, 0x60, 0x39, 0xa3, 0x3c, 0xe4, 0x59, 0x64, 0xff, 0x21, 0x67,
        0xf6, 0xec, 0xed, 0xd4, 0x19, 0xdb, 0x06, 0xc1,
    ];
    assert_eq!(sha256(b"abcdbcdecdefdefgefghfghighijhijkijkljklmklmnlmnomnopnopq"), expected);
}

#[test]
fn sha256_at_padding_boundaries() {
    let expected: [u8; 32] = [
        0x9f, 0x43, 0x90, 0xf8, 0xd3, 0x0c, 0x2d, 0xd9, 0x2e, 0xc9, 0xf0, 0x95,
        0xb6, 0x5e, 0x2b, 0x9a, 0xe9, 0xb0, 0xa9, 0x25, 0xa5, 0x25, 0x8e, 0x24,
        0x1c, 0x9f, 0x1e, 0x91, 0x0f, 0x73, 0x43, 0x18,
    ];
    assert_eq!(sha256(&[0x61u8; 55]), expected);
    let expected: [u8; 32] = [
        0xb3, 0x54, 0x39, 0xa4, 0xac, 0x6f, 0x09, 0x48, 0xb6, 0xd6, 0xf9, 0xe3,
        0xc6, 0xaf, 0x0f, 0x5f, 0x59, 0x0c, 0xe2, 0x0f, 0x1b, 0xde, 0x70, 0x90,
        0xef, 0x79, 0x70, 0x68, 0x6e, 0xc6, 0x73, 0x8a,
    ];
    assert_eq!(sha256(&[0x61u8; 56]), expected);
    let expected: [u8; 32] = [
        0x7d, 0x3e, 0x74, 0xa0, 0x5d, 0x7d, 0xb1, 0x5b, 0xce, 0x4a, 0xd9, 0xec,
        0x06, 0x58, 0xea, 0x98, 0xe3, 0xf0, 0x6e, 0xee, 0xcf, 0x16, 0xb4, 0xc6,
        0xff, 0xf2, 0xda, 0x45, 0x7d, 0xdc, 0x2f, 0x34,
    ];
    assert_eq!(sha256(&[0x61u8; 63]), expected);
    let expected: [u8; 32] = [
        0xff, 0xe0, 0x54, 0xfe, 0x7a, 0xe0, 0xcb, 0x6d, 0xc6, 0x5c, 0x3a, 0xf9,
        0xb6, 0x1d, 0x52, 0x09, 0xf4, 0x39, 0x85, 0x1d, 0xb4, 0x3d, 0x0b, 0xa5,
        0x99, 0x73, 0x37, 0xdf, 0x15, 0x46, 0x68, 0xeb,
    ];
    assert_eq!(sha256(&[0x61u8; 64]), expected);
    let expected: [u8; 32] = [
        0x63, 0x53, 0x61, 0xc4, 0x8b, 0xb9, 0xea, 0xb1, 0x41, 0x98, 0xe7, 0x6e,
        0xa8, 0xab, 0x7f, 0x1a, 0x41, 0x68, 0x5d, 0x6a, 0xd6, 0x2a, 0xa9, 0x14,
        0x6d, 0x30, 0x1d, 0x4f, 0x17, 0xeb, 0x0a, 0xe0,
    ];
    assert_eq!(sha256(&[0x61u8; 65]), expected);
    let expected: [u8; 32] = [
        0x31, 0xeb, 0xa5, 0x1c, 0x31, 0x3a, 0x5c, 0x08, 0x22, 0x6a, 0xdf, 0x18,
        0xd4, 0xa3, 0x59, 0xcf, 0xdf, 0xd8, 0xd2, 0xe8, 0x16, 0xb1, 0x3f, 0x4a,
        0xf9, 0x52, 0xf7, 0xea, 0x65, 0x84, 0xdc, 0xfb,
    ];
    assert_eq!(sha256(&[0x61u8; 119]), expected);
    let expected: [u8; 32] = [
        0x2f, 0x3d, 0x33, 0x54, 0x32, 0xc7, 0x0b, 0x58, 0x0a, 0xf0, 0xe8, 0xe1,
        0xb3, 0x67, 0x4a, 0x7c, 0x02, 0x0d, 0x68, 0x3a, 0xa5, 0xf7, 0x3a, 0xaa,
        0xed, 0xfd, 0xc5, 0x5a, 0xf9, 0x04, 0xc2, 0x1c,
    ];
    assert_eq!(sha256(&[0x61u8; 120]), expected);
    let expected: [u8; 32] = [
        0x41, 0xed, 0xec, 0xe4, 0x2d, 0x63, 0xe8, 0xd9, 0xbf, 0x51, 0x5a, 0x9b,
        0xa6, 0x93, 0x2e, 0x1c, 0x20, 0xcb, 0xc9, 0xf5, 0xa5, 0xd1, 0x34, 0x64,
        0x5a, 0xdb, 0x5d, 0xb1, 0xb9, 0x73, 0x7e, 0xa3,
    ];
    assert_eq!(sha256(&[0x61u8; 1000]), expected);
}

#[test]
fn blake2b_at_block_boundaries() {
    let expected: [u8; 32] = [
        0x0e, 0x57, 0x51, 0xc0, 0x26, 0xe5, 0x43, 0xb2, 0xe8, 0xab, 0x2e, 0xb0,
        0x60, 0x99, 0xda, 0xa1, 0xd1, 0xe5, 0xdf, 0x47, 0x77, 0x8f, 0x77, 0x87,
        0xfa, 0xab, 0x45, 0xcd, 0xf1, 0x2f, 0xe3, 0xa8,
    ];
    assert_eq!(blake2b_256(&[0x61u8; 0]), expected);
    let expected: [u8; 32] = [
        0x89, 0x28, 0xaa, 0xe6, 0x3c, 0x84, 0xd8, 0x7e, 0xa0, 0x98, 0x56, 0x4d,
        0x1e, 0x03, 0xad, 0x81, 0x3f, 0x10, 0x7a, 0xdd, 0x47, 0x4e, 0x56, 0xae,
        0xdd, 0x28, 0x63, 0x49, 0xc0, 0xc0, 0x3e, 0xa4,
    ];
    assert_eq!(blake2b_256(&[0x61u8; 1]), expected);
    let expected: [u8; 32] = [
        0x59, 0xe2, 0xf1, 0xab, 0xa2, 0x40, 0xf2, 0x0a, 0xa5, 0x91, 0x01, 0x6f,
        0x5e, 0xf4, 0x29, 0x99, 0x0b, 0xc9, 0xc2, 0x13, 0x1d, 0xcd, 0x0d, 0x30,
        0xf0, 0xff, 0xd7, 0x5e, 0xd1, 0x8f, 0x31, 0x7d,
    ];
    assert_eq!(blake2b_256(&[0x61u8; 127]), expected);
    let expected: [u8; 32] = [
        0xae, 0x2a, 0xa4, 0x85, 0x07, 0x88, 0x5c, 0x4c, 0x95, 0x0f, 0xb8, 0x09,
        0xb2, 0x07, 0x6f, 0x95, 0x9c, 0xde, 0x9f, 0x8e, 0xa6, 0xda, 0x26, 0x0d,
        0x9a, 0x35, 0x87, 0xdf, 0x33, 0xda, 0xc4, 0x50,
    ];
    assert_eq!(blake2b_256(&[0x61u8; 128]), expected);
    let expected: [u8; 32] = [
        0x2f, 0x64, 0x74, 0x4a, 0x6d, 0xe0, 0xd2, 0xc0, 0xb5, 0x6e, 0x64, 0xcf,
        0x6e, 0x29, 0xa5, 0xaa, 0xa2, 0x55, 0x01, 0x0d, 0x41, 0x5d, 0x51, 0xc7,
        0x5c, 0xcc, 0x82, 0xf7, 0x3d, 0xcc, 0xd8, 0x65,
    ];
    assert_eq!(blake2b_256(&[0x61u8; 129]), expected);
    let expected: [u8; 32] = [
        0xea, 0xe4, 0xd3, 0xa7, 0x62, 0x75, 0x49, 0xb3, 0x83, 0x17, 0x9d, 0xc1,
        0x80, 0x49, 0x96, 0x4f, 0x91, 0xa6, 0xfe, 0xd1, 0x4c, 0x9f, 0x3f, 0xb2,
        0x67, 0x05, 0xed, 0xa3, 0xee, 0xda, 0x55, 0x58,
    ];
    assert_eq!(blake2b_256(&[0x61u8; 256]), expected);
    let expected: [u8; 32] = [
        0xe0, 0x0b, 0x0d, 0xdb, 0xf1, 0xe2, 0xcd, 0xaf, 0x5c, 0x89, 0x8e, 0x1a,
        0x5e, 0x88, 0x26, 0xea, 0x3a, 0x2c, 0x33, 0x9b, 0xcf, 0x2a, 0x47, 0x8d,
        0xa2, 0xe5, 0xfc, 0xa9, 0xff, 0x12, 0x66, 0x72,
    ];
    assert_eq!(blake2b_256(&[0x61u8; 1000]), expected);
}

#[test]
fn nonce_hashes_epoch_seed_and_node() {
    let mut node = [0u8; 32];
    for i in 0..32u8 {
        node[i as usize] = i;
    }
    let seed = RandomSeed::from_counter(0x0102_0304_0506_0708);
    let expected: [u8; 32] = [
        0x92, 0xea, 0x11, 0xbb, 0x5f, 0x60, 0x4b, 0x06, 0x43, 0x56, 0x35, 0x40,
        0x17, 0x42, 0xbe, 0xca, 0x91, 0x13, 0x8f, 0x78, 0x58, 0x29, 0x9f, 0xbc,
        0xe2, 0xcc, 0x49, 0xb0, 0xd1, 0x38, 0xdd, 0x2a,
    ];
    assert_eq!(derive_nonce(7, &seed, &node), expected);
    assert_ne!(derive_nonce(8, &seed, &node), expected);
    assert_ne!(derive_nonce(7, &RandomSeed::from_counter(1), &node), expected);
    assert_ne!(derive_nonce(7, &seed, &[0u8; 32]), expected);
}

#[test]
fn seed_from_counter_is_little_endian() {
    let RandomSeed(bytes) = RandomSeed::from_counter(0x0102);
    assert_eq!(bytes[0], 0x02);
    assert_eq!(bytes[1], 0x01);
    assert!(bytes[2..].iter().all(|b| *b == 0));
    assert_eq!(RandomSeed::from_bytes(bytes), RandomSeed::from_counter(0x0102));
}

#[test]
fn root_signature_is_a_keyed_hash() {
    let key = [0x11u8; 32];
    let root = [0x22u8; 32];
    let expected: [u8; 32] = [
        0x51, 0x89, 0xc7, 0x7d, 0x29, 0xfe, 0x5d, 0x54, 0x6a, 0x04, 0x5e, 0xc4,
        0x69, 0x86, 0x85, 0x27, 0x85, 0xfe, 0xa5, 0xc1, 0x3a, 0xc7, 0xda, 0x9c,
        0x11, 0x5f, 0xf5, 0xfb, 0x6e, 0xdf, 0x81, 0x7c,
    ];
    assert_eq!(sign_root(&key, &root), expected);
    assert!(verify_root(&key, &root, &expected));
    assert!(!verify_root(&[0x12u8; 32], &root, &expected));
    assert!(!verify_root(&key, &[0x23u8; 32], &expected));
    let mut tampered = expected;
    tampered[31] ^= 1;
    assert!(!verify_root(&key, &root, &tampered));
}

#[test]
fn domains_differ_by_kind_and_fork() {
    let attester = compute_domain(DOMAIN_BEACON_ATTESTER, GENESIS_FORK_VERSION);
    assert_eq!(attester, [1, 0, 0, 0, 0, 0, 0, 0]);
    assert_ne!(attester, compute_domain(DOMAIN_RANDAO, GENESIS_FORK_VERSION));
    assert_eq!(
        compute_domain(DOMAIN_BEACON_ATTESTER, [9, 8, 7, 6]),
        [1, 0, 0, 0, 9, 8, 7, 6]
    );
}

#[test]
fn subgroup_membership_separates_low_order_keys() {
    assert_eq!(SUBGROUP_ORDER * COFACTOR, GROUP_ORDER);
    assert_eq!(subgroup_member(5).element, 60);
    assert_eq!(subgroup_member(SUBGROUP_ORDER).element, 0);
    for n in 0..50 {
        assert!(subgroup_check_g2(&subgroup_member(n)));
        assert!(!subgroup_check_g2(&low_order_point(n)));
    }
    assert_eq!(subgroup_member(1).to_bytes(), [0, 0, 0, 0, 0, 0, 0, 12]);
}
