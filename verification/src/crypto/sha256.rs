//! Minimal, dependency-free SHA-256 (FIPS 180-4).

use vstd::prelude::*;

use crate::byte_order::{append, to_vec};
use crate::codec::{be_digits, be_value, lemma_be_digits_len, lemma_radix_powers, read_be, u32_to_be, u64_to_be};

verus! {

/// Initial hash value (FIPS 180-4, section 5.3.3).
pub const H0: [u32; 8] = [
    0x6a09e667, 0xbb67ae85, 0x3c6ef372, 0xa54ff53a, 0x510e527f, 0x9b05688c, 0x1f83d9ab, 0x5be0cd19,
];

/// Round constants (FIPS 180-4, section 4.2.2).
pub const K: [u32; 64] = [
    0x428a2f98, 0x71374491, 0xb5c0fbcf, 0xe9b5dba5, 0x3956c25b, 0x59f111f1, 0x923f82a4, 0xab1c5ed5,
    0xd807aa98, 0x12835b01, 0x243185be, 0x550c7dc3, 0x72be5d74, 0x80deb1fe, 0x9bdc06a7, 0xc19bf174,
    0xe49b69c1, 0xefbe4786, 0x0fc19dc6, 0x240ca1cc, 0x2de92c6f, 0x4a7484aa, 0x5cb0a9dc, 0x76f988da,
    0x983e5152, 0xa831c66d, 0xb00327c8, 0xbf597fc7, 0xc6e00bf3, 0xd5a79147, 0x06ca6351, 0x14292967,
    0x27b70a85, 0x2e1b2138, 0x4d2c6dfc, 0x53380d13, 0x650a7354, 0x766a0abb, 0x81c2c92e, 0x92722c85,
    0xa2bfe8a1, 0xa81a664b, 0xc24b8b70, 0xc76c51a3, 0xd192e819, 0xd6990624, 0xf40e3585, 0x106aa070,
    0x19a4c116, 0x1e376c08, 0x2748774c, 0x34b0bcb5, 0x391c0cb3, 0x4ed8aa4a, 0x5b9cca4f, 0x682e6ff3,
    0x748f82ee, 0x78a5636f, 0x84c87814, 0x8cc70208, 0x90befffa, 0xa4506ceb, 0xbef9a3f7, 0xc67178f2,
];

/// `x` turned right by `n` bits.
pub open spec fn rotated_right(x: u32, n: u32) -> u32 {
    (x >> n) | (x << ((32 - n) as u32))
}

/// `Ch`: bits of `f` where `e` is set, of `g` elsewhere.
pub open spec fn choice(e: u32, f: u32, g: u32) -> u32 {
    (e & f) ^ (!e & g)
}

/// `Maj`: the majority of the three bits.
pub open spec fn majority(a: u32, b: u32, c: u32) -> u32 {
    (a & b) ^ (a & c) ^ (b & c)
}

pub open spec fn big_sigma0(x: u32) -> u32 {
    rotated_right(x, 2) ^ rotated_right(x, 13) ^ rotated_right(x, 22)
}

pub open spec fn big_sigma1(x: u32) -> u32 {
    rotated_right(x, 6) ^ rotated_right(x, 11) ^ rotated_right(x, 25)
}

pub open spec fn small_sigma0(x: u32) -> u32 {
    rotated_right(x, 7) ^ rotated_right(x, 18) ^ (x >> 3)
}

pub open spec fn small_sigma1(x: u32) -> u32 {
    rotated_right(x, 17) ^ rotated_right(x, 19) ^ (x >> 10)
}

/// The word `t` of the message schedule of a block of 64 bytes.
pub open spec fn schedule_word(block: Seq<u8>, t: nat) -> u32
    decreases t,
{
    if t < 16 {
        be_value(block.subrange(4 * t as int, 4 * t as int + 4)) as u32
    } else {
        small_sigma1(schedule_word(block, (t - 2) as nat)).wrapping_add(
            schedule_word(block, (t - 7) as nat),
        ).wrapping_add(small_sigma0(schedule_word(block, (t - 15) as nat))).wrapping_add(
            schedule_word(block, (t - 16) as nat),
        )
    }
}

/// One step on the eight working variables, with round constant `k` and schedule word `w`.
pub open spec fn stepped(s: Seq<u32>, k: u32, w: u32) -> Seq<u32> {
    let t1 = s[7].wrapping_add(big_sigma1(s[4])).wrapping_add(
        choice(s[4], s[5], s[6]),
    ).wrapping_add(k).wrapping_add(w);
    let t2 = big_sigma0(s[0]).wrapping_add(majority(s[0], s[1], s[2]));
    seq![t1.wrapping_add(t2), s[0], s[1], s[2], s[3].wrapping_add(t1), s[4], s[5], s[6]]
}

/// The working variables after the first `t` steps.
pub open spec fn after_steps(h: Seq<u32>, block: Seq<u8>, t: nat) -> Seq<u32>
    decreases t,
{
    if t == 0 {
        h
    } else {
        stepped(
            after_steps(h, block, (t - 1) as nat),
            K@[t - 1],
            schedule_word(block, (t - 1) as nat),
        )
    }
}

/// The hash value after one more block.
#[verifier::opaque]
pub open spec fn compressed(h: Seq<u32>, block: Seq<u8>) -> Seq<u32> {
    let s = after_steps(h, block, 64);
    Seq::new(8, |i: int| h[i].wrapping_add(s[i]))
}

/// The number of zero bytes between the end mark and the length.
pub open spec fn zero_count(len: nat) -> nat {
    ((119 - len % 64) % 64) as nat
}

/// The padded message: an end mark, zeros, and the length in bits modulo 2^64.
pub open spec fn padded(message: Seq<u8>) -> Seq<u8> {
    message + seq![0x80u8] + Seq::new(zero_count(message.len()), |i: int| 0u8) + be_digits(
        (message.len() * 8) % 0x1_0000_0000_0000_0000,
        8,
    )
}

/// The hash value after the first `n` blocks.
pub open spec fn after_blocks(padded: Seq<u8>, n: nat) -> Seq<u32>
    decreases n,
{
    if n == 0 {
        H0@
    } else {
        compressed(
            after_blocks(padded, (n - 1) as nat),
            padded.subrange(64 * (n - 1), 64 * n as int),
        )
    }
}

/// The words of a hash value, most significant byte first.
pub open spec fn words_to_bytes(h: Seq<u32>) -> Seq<u8> {
    Seq::new(32, |i: int| be_digits(h[i / 4] as nat, 4)[i % 4])
}

/// SHA-256.
pub open spec fn sha256_digest(message: Seq<u8>) -> Seq<u8> {
    let p = padded(message);
    words_to_bytes(after_blocks(p, p.len() / 64))
}

/// A digest has 32 bytes.
pub proof fn lemma_digest_len(message: Seq<u8>)
    ensures
        sha256_digest(message).len() == 32,
{
}

fn rotate_right(x: u32, n: u32) -> (r: u32)
    requires
        0 < n < 32,
    ensures
        r == rotated_right(x, n),
{
    (x >> n) | (x << (32 - n))
}

/// The message schedule of the block that starts at `start`.
fn schedule(message: &[u8], start: usize) -> (r: [u32; 64])
    requires
        start + 64 <= message.len(),
    ensures
        forall|t: int|
            0 <= t < 64 ==> r@[t] == schedule_word(
                message@.subrange(start as int, start + 64),
                t as nat,
            ),
{
    let ghost block = message@.subrange(start as int, start + 64);
    let mut w: [u32; 64] = [0u32; 64];
    let mut t: usize = 0;
    while t < 64
        invariant
            t <= 64,
            start + 64 <= message.len(),
            block == message@.subrange(start as int, start + 64),
            forall|j: int| 0 <= j < t ==> w@[j] == schedule_word(block, j as nat),
        decreases 64 - t,
    {
        if t < 16 {
            proof {
                lemma_radix_powers();
                assert(message@.subrange(start + 4 * t, start + 4 * t + 4) =~= block.subrange(
                    4 * t as int,
                    4 * t + 4,
                ));
            }
            w[t] = read_be(message, start + 4 * t, 4) as u32;
        } else {
            let x: u32 = w[t - 2];
            let y: u32 = w[t - 15];
            let s1: u32 = rotate_right(x, 17) ^ rotate_right(x, 19) ^ (x >> 10);
            let s0: u32 = rotate_right(y, 7) ^ rotate_right(y, 18) ^ (y >> 3);
            w[t] = s1.wrapping_add(w[t - 7]).wrapping_add(s0).wrapping_add(w[t - 16]);
        }
        t = t + 1;
    }
    w
}

/// Takes the block that starts at `start` into the hash value.
fn compress(h: &mut [u32; 8], message: &[u8], start: usize)
    requires
        start + 64 <= message.len(),
    ensures
        final(h)@ == compressed(old(h)@, message@.subrange(start as int, start + 64)),
{
    let ghost block = message@.subrange(start as int, start + 64);
    let w: [u32; 64] = schedule(message, start);
    let ks: [u32; 64] = K;
    let mut s: [u32; 8] = *h;
    let mut t: usize = 0;
    while t < 64
        invariant
            t <= 64,
            ks@ == K@,
            forall|j: int| 0 <= j < 64 ==> w@[j] == schedule_word(block, j as nat),
            s@ == after_steps(h@, block, t as nat),
        decreases 64 - t,
    {
        let ghost before = s@;
        let e: u32 = s[4];
        let a: u32 = s[0];
        let sum1: u32 = rotate_right(e, 6) ^ rotate_right(e, 11) ^ rotate_right(e, 25);
        let ch: u32 = (e & s[5]) ^ (!e & s[6]);
        let t1: u32 = s[7].wrapping_add(sum1).wrapping_add(ch).wrapping_add(ks[t]).wrapping_add(
            w[t],
        );
        let sum0: u32 = rotate_right(a, 2) ^ rotate_right(a, 13) ^ rotate_right(a, 22);
        let maj: u32 = (a & s[1]) ^ (a & s[2]) ^ (s[1] & s[2]);
        let t2: u32 = sum0.wrapping_add(maj);
        s = [t1.wrapping_add(t2), a, s[1], s[2], s[3].wrapping_add(t1), e, s[5], s[6]];
        proof {
            assert(s@ =~= stepped(before, K@[t as int], schedule_word(block, t as nat)));
        }
        t = t + 1;
    }
    let ghost h0 = h@;
    let mut i: usize = 0;
    while i < 8
        invariant
            i <= 8,
            forall|j: int| 0 <= j < i ==> h@[j] == h0[j].wrapping_add(s@[j]),
            forall|j: int| i <= j < 8 ==> h@[j] == h0[j],
        decreases 8 - i,
    {
        h[i] = h[i].wrapping_add(s[i]);
        i = i + 1;
    }
    proof {
        reveal(compressed);
    }
    assert(h@ =~= compressed(h0, block));
}

/// The padded message.
fn pad(message: &[u8]) -> (r: Vec<u8>)
    ensures
        r@ == padded(message@),
        r@.len() % 64 == 0,
{
    let mut out: Vec<u8> = to_vec(message);
    out.push(0x80);
    let len: usize = message.len();
    let zeros: usize = (119 - len % 64) % 64;
    let mut i: usize = 0;
    while i < zeros
        invariant
            i <= zeros,
            zeros == zero_count(message@.len()),
            out@ == message@ + seq![0x80u8] + Seq::new(i as nat, |j: int| 0u8),
        decreases zeros - i,
    {
        out.push(0);
        i = i + 1;
        assert(out@ =~= message@ + seq![0x80u8] + Seq::new(i as nat, |j: int| 0u8));
    }
    let bits: u64 = (len as u64).wrapping_mul(8);
    append(&mut out, u64_to_be(bits).as_slice());
    proof {
        lemma_be_digits_len(bits as nat, 8);
    }
    out
}

/// Computes SHA-256 of `message`.
pub fn sha256(message: &[u8]) -> (r: [u8; 32])
    ensures
        r@ == sha256_digest(message@),
{
    let p: Vec<u8> = pad(message);
    let mut h: [u32; 8] = H0;
    let mut start: usize = 0;
    let ghost mut n: nat = 0;
    while start < p.len()
        invariant
            p@ == padded(message@),
            p@.len() % 64 == 0,
            start == 64 * n,
            start <= p@.len(),
            h@ == after_blocks(p@, n),
        decreases p@.len() - start,
    {
        compress(&mut h, p.as_slice(), start);
        start = start + 64;
        proof {
            n = n + 1;
        }
    }
    assert(n == p@.len() / 64);

    let mut out: [u8; 32] = [0u8; 32];
    let mut i: usize = 0;
    while i < 8
        invariant
            i <= 8,
            forall|j: int| 0 <= j < 4 * i ==> out@[j] == words_to_bytes(h@)[j],
        decreases 8 - i,
    {
        let word: [u8; 4] = u32_to_be(h[i]);
        let mut k: usize = 0;
        while k < 4
            invariant
                i < 8,
                k <= 4,
                word@ == be_digits(h@[i as int] as nat, 4),
                forall|j: int| 0 <= j < 4 * i + k ==> out@[j] == words_to_bytes(h@)[j],
            decreases 4 - k,
        {
            proof {
                assert((4 * i + k) / 4 == i as int && (4 * i + k) % 4 == k as int);
            }
            out[4 * i + k] = word[k];
            k = k + 1;
        }
        i = i + 1;
    }
    assert(out@ =~= words_to_bytes(h@));
    out
}

} // verus!
