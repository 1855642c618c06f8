//! Minimal, dependency-free BLAKE2b-256 (RFC 7693).
//!
//! Covers the non-keyed, non-personalized variant with a 32-byte digest, which is all that the
//! nonce generator needs.

use vstd::prelude::*;

use crate::codec::{le_digits, le_value, read_le64, u64_to_le};

verus! {

/// BLAKE2b initialisation vector (RFC 7693, Appendix C).
pub const IV: [u64; 8] = [
    0x6a09e667f3bcc908,
    0xbb67ae8584caa73b,
    0x3c6ef372fe94f82b,
    0xa54ff53a5f1d36f1,
    0x510e527fade682d1,
    0x9b05688c2b3e6c1f,
    0x1f83d9abfb41bd6b,
    0x5be0cd19137e2179,
];

/// BLAKE2 message schedule (RFC 7693, section 2.7).
pub const SIGMA: [[usize; 16]; 12] = [
    [0, 1, 2, 3, 4, 5, 6, 7, 8, 9, 10, 11, 12, 13, 14, 15],
    [14, 10, 4, 8, 9, 15, 13, 6, 1, 12, 0, 2, 11, 7, 5, 3],
    [11, 8, 12, 0, 5, 2, 15, 13, 10, 14, 3, 6, 7, 1, 9, 4],
    [7, 9, 3, 1, 13, 12, 11, 14, 2, 6, 5, 10, 4, 0, 15, 8],
    [9, 0, 5, 7, 2, 4, 10, 15, 14, 1, 11, 12, 6, 8, 3, 13],
    [2, 12, 6, 10, 0, 11, 8, 3, 4, 13, 7, 5, 15, 14, 1, 9],
    [12, 5, 1, 15, 14, 13, 4, 10, 0, 7, 6, 3, 9, 2, 8, 11],
    [13, 11, 7, 14, 12, 1, 3, 9, 5, 0, 15, 4, 8, 6, 2, 10],
    [6, 15, 14, 9, 11, 3, 0, 8, 12, 2, 13, 7, 1, 4, 10, 5],
    [10, 2, 8, 4, 7, 6, 1, 5, 15, 11, 9, 14, 3, 12, 13, 0],
    [0, 1, 2, 3, 4, 5, 6, 7, 8, 9, 10, 11, 12, 13, 14, 15],
    [14, 10, 4, 8, 9, 15, 13, 6, 1, 12, 0, 2, 11, 7, 5, 3],
];

/// `x` turned right by `n` bits.
pub open spec fn rotated_right(x: u64, n: u64) -> u64 {
    (x >> n) | (x << ((64 - n) as u64))
}

/// The mixing function G on the words at places `a`, `b`, `c` and `d` (RFC 7693, section 3.1).
pub open spec fn mixed(v: Seq<u64>, a: int, b: int, c: int, d: int, x: u64, y: u64) -> Seq<u64> {
    let a1 = v[a].wrapping_add(v[b]).wrapping_add(x);
    let d1 = rotated_right(v[d] ^ a1, 32);
    let c1 = v[c].wrapping_add(d1);
    let b1 = rotated_right(v[b] ^ c1, 24);
    let a2 = a1.wrapping_add(b1).wrapping_add(y);
    let d2 = rotated_right(d1 ^ a2, 16);
    let c2 = c1.wrapping_add(d2);
    let b2 = rotated_right(b1 ^ c2, 63);
    v.update(a, a2).update(b, b2).update(c, c2).update(d, d2)
}

/// The message word that round `round` uses as its `k`-th.
pub open spec fn scheduled(m: Seq<u64>, round: int, k: int) -> u64 {
    m[SIGMA@[round]@[k] as int]
}

/// One round: the columns, then the diagonals.
pub open spec fn round_of(v: Seq<u64>, m: Seq<u64>, r: int) -> Seq<u64> {
    let v = mixed(v, 0, 4, 8, 12, scheduled(m, r, 0), scheduled(m, r, 1));
    let v = mixed(v, 1, 5, 9, 13, scheduled(m, r, 2), scheduled(m, r, 3));
    let v = mixed(v, 2, 6, 10, 14, scheduled(m, r, 4), scheduled(m, r, 5));
    let v = mixed(v, 3, 7, 11, 15, scheduled(m, r, 6), scheduled(m, r, 7));
    let v = mixed(v, 0, 5, 10, 15, scheduled(m, r, 8), scheduled(m, r, 9));
    let v = mixed(v, 1, 6, 11, 12, scheduled(m, r, 10), scheduled(m, r, 11));
    let v = mixed(v, 2, 7, 8, 13, scheduled(m, r, 12), scheduled(m, r, 13));
    mixed(v, 3, 4, 9, 14, scheduled(m, r, 14), scheduled(m, r, 15))
}

/// The working vector after the first `n` rounds.
pub open spec fn after_rounds(v: Seq<u64>, m: Seq<u64>, n: nat) -> Seq<u64>
    decreases n,
{
    if n == 0 {
        v
    } else {
        round_of(after_rounds(v, m, (n - 1) as nat), m, n - 1)
    }
}

/// The sixteen little-endian words of a block of 128 bytes.
pub open spec fn block_words(block: Seq<u8>) -> Seq<u64> {
    Seq::new(16, |i: int| le_value(block.subrange(8 * i, 8 * i + 8)) as u64)
}

/// The working vector at the start of a compression.
pub open spec fn initial_vector(h: Seq<u64>, t_lo: u64, t_hi: u64, last: bool) -> Seq<u64> {
    let v = h + IV@;
    let v = v.update(12, v[12] ^ t_lo).update(13, v[13] ^ t_hi);
    if last {
        v.update(14, !v[14])
    } else {
        v
    }
}

/// The compression function F (RFC 7693, section 3.2).
#[verifier::opaque]
pub open spec fn compressed(h: Seq<u64>, block: Seq<u8>, t_lo: u64, t_hi: u64, last: bool) -> Seq<
    u64,
> {
    let v = after_rounds(initial_vector(h, t_lo, t_hi, last), block_words(block), 12);
    Seq::new(8, |i: int| h[i] ^ (v[i] ^ v[i + 8]))
}

/// The state before the first block: digest length 32, no key, fanout and depth 1.
pub open spec fn initial_state() -> Seq<u64> {
    IV@.update(0, IV@[0] ^ 0x0000_0000_0101_0020u64)
}

/// A part of the input, filled up with zeros to a block of 128 bytes.
pub open spec fn zero_filled(part: Seq<u8>) -> Seq<u8> {
    Seq::new(128, |i: int| if i < part.len() { part[i] } else { 0u8 })
}

/// The state after the first `n` whole blocks, none of which is the last.
pub open spec fn after_blocks(input: Seq<u8>, n: nat) -> Seq<u64>
    decreases n,
{
    if n == 0 {
        initial_state()
    } else {
        compressed(
            after_blocks(input, (n - 1) as nat),
            input.subrange(128 * (n - 1), 128 * n as int),
            (128 * n) as u64,
            0,
            false,
        )
    }
}

/// The number of blocks before the last one.
pub open spec fn leading_blocks(len: nat) -> nat {
    if len == 0 {
        0
    } else {
        ((len - 1) / 128) as nat
    }
}

/// The state after the whole input.
pub open spec fn final_state(input: Seq<u8>) -> Seq<u64> {
    let n = leading_blocks(input.len());
    compressed(
        after_blocks(input, n),
        zero_filled(input.subrange(128 * n as int, input.len() as int)),
        input.len() as u64,
        0,
        true,
    )
}

/// BLAKE2b with a digest of 32 bytes, without key, salt or personalization.
pub open spec fn blake2b_256_digest(input: Seq<u8>) -> Seq<u8> {
    let h = final_state(input);
    Seq::new(32, |i: int| le_digits(h[i / 8] as nat, 8)[i % 8])
}

fn rotate_right(x: u64, n: u64) -> (r: u64)
    requires
        0 < n < 64,
    ensures
        r == rotated_right(x, n),
{
    (x >> n) | (x << (64 - n))
}

/// The BLAKE2b G mixing function.
fn g(v: &mut [u64; 16], a: usize, b: usize, c: usize, d: usize, x: u64, y: u64)
    requires
        a < 4,
        4 <= b < 8,
        8 <= c < 12,
        12 <= d < 16,
    ensures
        final(v)@ == mixed(old(v)@, a as int, b as int, c as int, d as int, x, y),
{
    let a1: u64 = v[a].wrapping_add(v[b]).wrapping_add(x);
    let d1: u64 = rotate_right(v[d] ^ a1, 32);
    let c1: u64 = v[c].wrapping_add(d1);
    let b1: u64 = rotate_right(v[b] ^ c1, 24);
    let a2: u64 = a1.wrapping_add(b1).wrapping_add(y);
    let d2: u64 = rotate_right(d1 ^ a2, 16);
    let c2: u64 = c1.wrapping_add(d2);
    let b2: u64 = rotate_right(b1 ^ c2, 63);
    v[a] = a2;
    v[b] = b2;
    v[c] = c2;
    v[d] = d2;
    assert(v@ =~= mixed(old(v)@, a as int, b as int, c as int, d as int, x, y));
}

/// The message word that a round uses as its `k`-th.
fn schedule(m: &[u64; 16], round: usize, k: usize) -> (r: u64)
    requires
        round < 12,
        k < 16,
    ensures
        r == scheduled(m@, round as int, k as int),
{
    let table: [[usize; 16]; 12] = SIGMA;
    let at: usize = table[round][k];
    proof {
        assert(forall|i: int, j: int|
            0 <= i < 12 && 0 <= j < 16 ==> #[trigger] SIGMA@[i]@[j] < 16);
    }
    m[at]
}

/// BLAKE2b compression function F.
fn compress(h: &mut [u64; 8], block: &[u8; 128], t_lo: u64, t_hi: u64, last_block: bool)
    ensures
        final(h)@ == compressed(old(h)@, block@, t_lo, t_hi, last_block),
{
    let mut m: [u64; 16] = [0u64; 16];
    let mut i: usize = 0;
    while i < 16
        invariant
            i <= 16,
            forall|j: int| 0 <= j < i ==> m@[j] == block_words(block@)[j],
        decreases 16 - i,
    {
        m[i] = read_le64(block.as_slice(), 8 * i);
        i = i + 1;
    }
    assert(m@ =~= block_words(block@));

    let iv: [u64; 8] = IV;
    let mut v: [u64; 16] = [0u64; 16];
    let mut i: usize = 0;
    while i < 8
        invariant
            i <= 8,
            iv@ == IV@,
            forall|j: int| 0 <= j < i ==> v@[j] == h@[j] && v@[j + 8] == IV@[j],
        decreases 8 - i,
    {
        v[i] = h[i];
        v[i + 8] = iv[i];
        i = i + 1;
    }
    assert(v@ =~= h@ + IV@);
    v[12] = v[12] ^ t_lo;
    v[13] = v[13] ^ t_hi;
    if last_block {
        v[14] = !v[14];
    }
    let ghost v0 = v@;
    assert(v0 =~= initial_vector(h@, t_lo, t_hi, last_block));

    let mut round: usize = 0;
    while round < 12
        invariant
            round <= 12,
            v@ == after_rounds(v0, m@, round as nat),
        decreases 12 - round,
    {
        g(&mut v, 0, 4, 8, 12, schedule(&m, round, 0), schedule(&m, round, 1));
        g(&mut v, 1, 5, 9, 13, schedule(&m, round, 2), schedule(&m, round, 3));
        g(&mut v, 2, 6, 10, 14, schedule(&m, round, 4), schedule(&m, round, 5));
        g(&mut v, 3, 7, 11, 15, schedule(&m, round, 6), schedule(&m, round, 7));
        g(&mut v, 0, 5, 10, 15, schedule(&m, round, 8), schedule(&m, round, 9));
        g(&mut v, 1, 6, 11, 12, schedule(&m, round, 10), schedule(&m, round, 11));
        g(&mut v, 2, 7, 8, 13, schedule(&m, round, 12), schedule(&m, round, 13));
        g(&mut v, 3, 4, 9, 14, schedule(&m, round, 14), schedule(&m, round, 15));
        round = round + 1;
    }

    let ghost h0 = h@;
    let mut i: usize = 0;
    while i < 8
        invariant
            i <= 8,
            forall|j: int| 0 <= j < i ==> h@[j] == h0[j] ^ (v@[j] ^ v@[j + 8]),
            forall|j: int| i <= j < 8 ==> h@[j] == h0[j],
        decreases 8 - i,
    {
        h[i] = h[i] ^ (v[i] ^ v[i + 8]);
        i = i + 1;
    }
    proof {
        reveal(compressed);
    }
    assert(h@ =~= compressed(h0, block@, t_lo, t_hi, last_block));
}

/// Copies a part of the input into a block and fills up with zeros.
fn fill_block(input: &[u8], offset: usize, take: usize) -> (r: [u8; 128])
    requires
        take <= 128,
        offset + take <= input.len(),
    ensures
        r@ == zero_filled(input@.subrange(offset as int, offset + take)),
{
    let mut block: [u8; 128] = [0u8; 128];
    let mut i: usize = 0;
    while i < take
        invariant
            i <= take <= 128,
            offset + take <= input.len(),
            forall|j: int| 0 <= j < i ==> block@[j] == input@[offset + j],
            forall|j: int| i <= j < 128 ==> block@[j] == 0u8,
        decreases take - i,
    {
        block[i] = input[offset + i];
        i = i + 1;
    }
    assert(block@ =~= zero_filled(input@.subrange(offset as int, offset + take)));
    block
}

/// Computes BLAKE2b-256 of `input` (no key, no salt, no personalization).
pub fn blake2b_256(input: &[u8]) -> (r: [u8; 32])
    ensures
        r@ == blake2b_256_digest(input@),
{
    let mut h: [u64; 8] = IV;
    h[0] = h[0] ^ 0x0000_0000_0101_0020;
    assert(h@ =~= initial_state());

    let total: usize = input.len();
    let mut offset: usize = 0;
    let ghost mut n: nat = 0;
    while total - offset > 128
        invariant
            total == input@.len(),
            offset == 128 * n,
            offset <= total,
            n <= leading_blocks(total as nat),
            h@ == after_blocks(input@, n),
        decreases total - offset,
    {
        let block: [u8; 128] = fill_block(input, offset, 128);
        proof {
            assert(block@ =~= input@.subrange(128 * n as int, 128 * (n + 1) as int));
        }
        offset = offset + 128;
        compress(&mut h, &block, offset as u64, 0, false);
        proof {
            n = n + 1;
        }
    }
    assert(n == leading_blocks(total as nat));
    let block: [u8; 128] = fill_block(input, offset, total - offset);
    compress(&mut h, &block, total as u64, 0, true);

    let mut out: [u8; 32] = [0u8; 32];
    let mut i: usize = 0;
    while i < 4
        invariant
            i <= 4,
            h@ == final_state(input@),
            forall|j: int| 0 <= j < 8 * i ==> out@[j] == blake2b_256_digest(input@)[j],
        decreases 4 - i,
    {
        let word: [u8; 8] = u64_to_le(h[i]);
        let mut k: usize = 0;
        while k < 8
            invariant
                i < 4,
                k <= 8,
                h@ == final_state(input@),
                word@ == le_digits(h@[i as int] as nat, 8),
                forall|j: int|
                    0 <= j < 8 * i + k ==> out@[j] == blake2b_256_digest(input@)[j],
            decreases 8 - k,
        {
            proof {
                assert((8 * i + k) / 8 == i as int && (8 * i + k) % 8 == k as int);
            }
            out[8 * i + k] = word[k];
            k = k + 1;
        }
        i = i + 1;
    }
    assert(out@ =~= blake2b_256_digest(input@));
    out
}

/// A digest has 32 bytes.
pub proof fn lemma_digest_len(input: Seq<u8>)
    ensures
        blake2b_256_digest(input).len() == 32,
{
}

} // verus!
