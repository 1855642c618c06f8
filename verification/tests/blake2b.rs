use verinode_core::crypto::blake2b::blake2b_256;

/// Known-answer test: BLAKE2b-256 of the empty string.
///
/// Reference value from the official BLAKE2 test vectors
/// (https://blake2.net/blake2b-test-vectors-ok.txt), truncated to 32 bytes.
#[test]
fn test_empty_input_known_answer() {
    let got = blake2b_256(&[]);
    // BLAKE2b-256("") = 0e5751c026e543b2e8ab2eb06099daa1d1e5df47778f7787faab45cdf12fe3a8
    let expected: [u8; 32] = [
        0x0e, 0x57, 0x51, 0xc0, 0x26, 0xe5, 0x43, 0xb2, 0xe8, 0xab, 0x2e, 0xb0, 0x60, 0x99,
        0xda, 0xa1, 0xd1, 0xe5, 0xdf, 0x47, 0x77, 0x8f, 0x77, 0x87, 0xfa, 0xab, 0x45, 0xcd,
        0xf1, 0x2f, 0xe3, 0xa8,
    ];
    assert_eq!(got, expected);
}

/// BLAKE2b-256 must be deterministic.
#[test]
fn test_deterministic() {
    let input = b"epoch-scoped nonce";
    assert_eq!(blake2b_256(input), blake2b_256(input));
}

/// Different inputs must produce different digests.
#[test]
fn test_distinct_inputs_distinct_outputs() {
    let a = blake2b_256(b"epoch:1");
    let b = blake2b_256(b"epoch:2");
    assert_ne!(a, b);
}
