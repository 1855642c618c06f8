//! Fixed-width integers as bytes, most or least significant byte first.

use vstd::prelude::*;

verus! {

/// The `n` low base-256 digits of `x`, most significant first.
pub open spec fn be_digits(x: nat, n: nat) -> Seq<u8>
    decreases n,
{
    if n == 0 {
        Seq::empty()
    } else {
        be_digits(x / 256, (n - 1) as nat).push((x % 256) as u8)
    }
}

/// The number whose base-256 digits are `s`, most significant first.
pub open spec fn be_value(s: Seq<u8>) -> nat
    decreases s.len(),
{
    if s.len() == 0 {
        0
    } else {
        be_value(s.drop_last()) * 256 + s.last() as nat
    }
}

/// The `n` low base-256 digits of `x`, least significant first.
pub open spec fn le_digits(x: nat, n: nat) -> Seq<u8>
    decreases n,
{
    if n == 0 {
        Seq::empty()
    } else {
        seq![(x % 256) as u8] + le_digits(x / 256, (n - 1) as nat)
    }
}

/// The number whose base-256 digits are `s`, least significant first.
pub open spec fn le_value(s: Seq<u8>) -> nat
    decreases s.len(),
{
    if s.len() == 0 {
        0
    } else {
        s[0] as nat + 256 * le_value(s.drop_first())
    }
}

/// 256 to the power `n`.
pub open spec fn radix_power(n: nat) -> nat
    decreases n,
{
    if n == 0 {
        1
    } else {
        256 * radix_power((n - 1) as nat)
    }
}

/// `be_digits` gives exactly as many digits as it is asked for.
pub proof fn lemma_be_digits_len(x: nat, n: nat)
    ensures
        be_digits(x, n).len() == n,
    decreases n,
{
    if n > 0 {
        lemma_be_digits_len(x / 256, (n - 1) as nat);
    }
}

/// `le_digits` gives exactly as many digits as it is asked for.
pub proof fn lemma_le_digits_len(x: nat, n: nat)
    ensures
        le_digits(x, n).len() == n,
    decreases n,
{
    if n > 0 {
        lemma_le_digits_len(x / 256, (n - 1) as nat);
    }
}

/// A number that fits into `n` digits is the value of its digits.
pub proof fn lemma_be_value_of_digits(x: nat, n: nat)
    requires
        x < radix_power(n),
    ensures
        be_value(be_digits(x, n)) == x,
        be_digits(x, n).len() == n,
    decreases n,
{
    if n > 0 {
        assert(x / 256 < radix_power((n - 1) as nat)) by {
            assert(x < 256 * radix_power((n - 1) as nat));
        }
        lemma_be_value_of_digits(x / 256, (n - 1) as nat);
        let s = be_digits(x, n);
        assert(s.drop_last() =~= be_digits(x / 256, (n - 1) as nat));
    }
}

/// Digits are the digits of their value.
pub proof fn lemma_be_digits_of_value(s: Seq<u8>)
    ensures
        be_digits(be_value(s), s.len()) == s,
        be_value(s) < radix_power(s.len()),
    decreases s.len(),
{
    if s.len() > 0 {
        lemma_be_digits_of_value(s.drop_last());
        let v = be_value(s);
        assert(v / 256 == be_value(s.drop_last()) && v % 256 == s.last());
        assert(be_digits(v, s.len()) =~= s);
    } else {
        assert(be_digits(be_value(s), s.len()) =~= s);
    }
}

/// The value of `n` digits is below 256 to the power `n`.
pub proof fn lemma_le_value_bound(s: Seq<u8>)
    ensures
        le_value(s) < radix_power(s.len()),
    decreases s.len(),
{
    if s.len() > 0 {
        lemma_le_value_bound(s.drop_first());
    }
}

/// A number that fits into `n` digits is the value of its digits.
pub proof fn lemma_le_value_of_digits(x: nat, n: nat)
    requires
        x < radix_power(n),
    ensures
        le_value(le_digits(x, n)) == x,
        le_digits(x, n).len() == n,
    decreases n,
{
    if n > 0 {
        let m = (n - 1) as nat;
        assert(x / 256 < radix_power(m)) by {
            assert(x < 256 * radix_power(m));
        }
        lemma_le_value_of_digits(x / 256, m);
        assert(le_digits(x, n).drop_first() =~= le_digits(x / 256, m));
    }
}

/// Two numbers that fit into `n` digits and have the same digits are the same number.
pub proof fn lemma_le_digits_injective(x: nat, y: nat, n: nat)
    requires
        x < radix_power(n),
        y < radix_power(n),
        le_digits(x, n) == le_digits(y, n),
    ensures
        x == y,
{
    lemma_le_value_of_digits(x, n);
    lemma_le_value_of_digits(y, n);
}

/// Digits are the digits of their value.
pub proof fn lemma_le_digits_of_value(s: Seq<u8>)
    ensures
        le_digits(le_value(s), s.len()) == s,
        le_value(s) < radix_power(s.len()),
    decreases s.len(),
{
    if s.len() > 0 {
        lemma_le_digits_of_value(s.drop_first());
        let v = le_value(s);
        assert(v % 256 == s[0] && v / 256 == le_value(s.drop_first()));
        assert(le_digits(v, s.len()) =~= s);
    } else {
        assert(le_digits(le_value(s), s.len()) =~= s);
    }
}

/// The first powers of 256.
pub proof fn lemma_radix_powers()
    ensures
        radix_power(2) == 0x1_0000,
        radix_power(4) == 0x1_0000_0000,
        radix_power(8) == 0x1_0000_0000_0000_0000,
{
    reveal_with_fuel(radix_power, 9);
}

proof fn lemma_radix_power_monotone(m: nat, n: nat)
    requires
        m <= n,
    ensures
        radix_power(m) <= radix_power(n),
    decreases n,
{
    if m < n {
        lemma_radix_power_monotone(m, (n - 1) as nat);
    }
}

/// The number that `n` bytes from `start` on hold, most significant byte first.
pub fn read_be(bytes: &[u8], start: usize, n: usize) -> (r: u64)
    requires
        n <= 8,
        start + n <= bytes.len(),
    ensures
        r == be_value(bytes@.subrange(start as int, start + n)),
        r < radix_power(n as nat),
{
    let mut value: u64 = 0;
    let mut i: usize = 0;
    while i < n
        invariant
            i <= n <= 8,
            start + n <= bytes.len(),
            value == be_value(bytes@.subrange(start as int, start + i)),
        decreases n - i,
    {
        proof {
            let s = bytes@.subrange(start as int, start + i);
            let t = bytes@.subrange(start as int, start + i + 1);
            assert(t.drop_last() =~= s);
            lemma_be_digits_of_value(s);
            lemma_radix_power_monotone((i + 1) as nat, 8);
            lemma_radix_powers();
        }
        value = value * 256 + bytes[start + i] as u64;
        i = i + 1;
    }
    proof {
        lemma_be_digits_of_value(bytes@.subrange(start as int, start + n));
    }
    value
}

/// The number that `n` bytes from `start` on hold, least significant byte first.
pub fn read_le(bytes: &[u8], start: usize, n: usize) -> (r: u64)
    requires
        n <= 8,
        start + n <= bytes.len(),
    ensures
        r == le_value(bytes@.subrange(start as int, start + n)),
        r < radix_power(n as nat),
{
    let mut value: u64 = 0;
    let mut i: usize = n;
    while i > 0
        invariant
            i <= n <= 8,
            start + n <= bytes.len(),
            value == le_value(bytes@.subrange(start + i, start + n)),
        decreases i,
    {
        proof {
            let s = bytes@.subrange(start + i, start + n);
            let t = bytes@.subrange(start + i - 1, start + n);
            assert(t.drop_first() =~= s);
            lemma_le_value_bound(s);
            lemma_le_value_bound(t);
            lemma_radix_power_monotone((n - i + 1) as nat, 8);
            lemma_radix_powers();
        }
        i = i - 1;
        value = bytes[start + i] as u64 + 256 * value;
    }
    proof {
        lemma_le_value_bound(bytes@.subrange(start as int, start + n));
    }
    value
}

/// The number that the eight bytes from `start` on hold, least significant byte first.
pub fn read_le64(bytes: &[u8], start: usize) -> (r: u64)
    requires
        start + 8 <= bytes.len(),
    ensures
        r == le_value(bytes@.subrange(start as int, start + 8)),
{
    read_le(bytes, start, 8)
}

/// The eight bytes of `x`, most significant first.
pub fn u64_to_be(x: u64) -> (r: [u8; 8])
    ensures
        r@ == be_digits(x as nat, 8),
{
    let x1: u64 = x / 256;
    let x2: u64 = x1 / 256;
    let x3: u64 = x2 / 256;
    let x4: u64 = x3 / 256;
    let x5: u64 = x4 / 256;
    let x6: u64 = x5 / 256;
    let x7: u64 = x6 / 256;
    let r: [u8; 8] = [
        (x7 % 256) as u8,
        (x6 % 256) as u8,
        (x5 % 256) as u8,
        (x4 % 256) as u8,
        (x3 % 256) as u8,
        (x2 % 256) as u8,
        (x1 % 256) as u8,
        (x % 256) as u8,
    ];
    proof {
        reveal_with_fuel(be_digits, 9);
        assert(r@ =~= be_digits(x as nat, 8));
    }
    r
}

/// The four bytes of `x`, most significant first.
pub fn u32_to_be(x: u32) -> (r: [u8; 4])
    ensures
        r@ == be_digits(x as nat, 4),
{
    let x1: u32 = x / 256;
    let x2: u32 = x1 / 256;
    let x3: u32 = x2 / 256;
    let r: [u8; 4] = [
        (x3 % 256) as u8,
        (x2 % 256) as u8,
        (x1 % 256) as u8,
        (x % 256) as u8,
    ];
    proof {
        reveal_with_fuel(be_digits, 5);
        assert(r@ =~= be_digits(x as nat, 4));
    }
    r
}

/// The two bytes of `x`, most significant first.
pub fn u16_to_be(x: u16) -> (r: [u8; 2])
    ensures
        r@ == be_digits(x as nat, 2),
{
    let x1: u16 = x / 256;
    let r: [u8; 2] = [
        (x1 % 256) as u8,
        (x % 256) as u8,
    ];
    proof {
        reveal_with_fuel(be_digits, 3);
        assert(r@ =~= be_digits(x as nat, 2));
    }
    r
}

/// The eight bytes of `x`, least significant first.
pub fn u64_to_le(x: u64) -> (r: [u8; 8])
    ensures
        r@ == le_digits(x as nat, 8),
{
    let x1: u64 = x / 256;
    let x2: u64 = x1 / 256;
    let x3: u64 = x2 / 256;
    let x4: u64 = x3 / 256;
    let x5: u64 = x4 / 256;
    let x6: u64 = x5 / 256;
    let x7: u64 = x6 / 256;
    let r: [u8; 8] = [
        (x % 256) as u8,
        (x1 % 256) as u8,
        (x2 % 256) as u8,
        (x3 % 256) as u8,
        (x4 % 256) as u8,
        (x5 % 256) as u8,
        (x6 % 256) as u8,
        (x7 % 256) as u8,
    ];
    proof {
        reveal_with_fuel(le_digits, 9);
        assert(r@ =~= le_digits(x as nat, 8));
    }
    r
}

/// The four bytes of `x`, least significant first.
pub fn u32_to_le(x: u32) -> (r: [u8; 4])
    ensures
        r@ == le_digits(x as nat, 4),
{
    let x1: u32 = x / 256;
    let x2: u32 = x1 / 256;
    let x3: u32 = x2 / 256;
    let r: [u8; 4] = [
        (x % 256) as u8,
        (x1 % 256) as u8,
        (x2 % 256) as u8,
        (x3 % 256) as u8,
    ];
    proof {
        reveal_with_fuel(le_digits, 5);
        assert(r@ =~= le_digits(x as nat, 4));
    }
    r
}

/// The two bytes of `x`, least significant first.
pub fn u16_to_le(x: u16) -> (r: [u8; 2])
    ensures
        r@ == le_digits(x as nat, 2),
{
    let x1: u16 = x / 256;
    let r: [u8; 2] = [
        (x % 256) as u8,
        (x1 % 256) as u8,
    ];
    proof {
        reveal_with_fuel(le_digits, 3);
        assert(r@ =~= le_digits(x as nat, 2));
    }
    r
}

/// The array that the bytes from `start` on hold.
pub fn read_array<const N: usize>(bytes: &[u8], start: usize) -> (r: [u8; N])
    requires
        start + N <= bytes.len(),
    ensures
        r@ == bytes@.subrange(start as int, start + N),
{
    let mut out: [u8; N] = [0u8; N];
    let mut i: usize = 0;
    while i < N
        invariant
            i <= N,
            start + N <= bytes.len(),
            forall|j: int| 0 <= j < i ==> out@[j] == bytes@[start + j],
        decreases N - i,
    {
        out[i] = bytes[start + i];
        i = i + 1;
    }
    assert(out@ =~= bytes@.subrange(start as int, start + N));
    out
}

/// The number that eight bytes spell, least significant first.
pub open spec fn le64_at(bytes: Seq<u8>, start: int) -> int {
    bytes[start] + 0x100 * bytes[start + 1] + 0x1_0000 * bytes[start + 2] + 0x100_0000 * bytes[start
        + 3] + 0x1_0000_0000 * bytes[start + 4] + 0x100_0000_0000 * bytes[start + 5]
        + 0x1_0000_0000_0000 * bytes[start + 6] + 0x100_0000_0000_0000 * bytes[start + 7]
}

/// The number that eight bytes spell, most significant first.
pub open spec fn be64_at(bytes: Seq<u8>, start: int) -> int {
    bytes[start + 7] + 0x100 * bytes[start + 6] + 0x1_0000 * bytes[start + 5] + 0x100_0000
        * bytes[start + 4] + 0x1_0000_0000 * bytes[start + 3] + 0x100_0000_0000 * bytes[start + 2]
        + 0x1_0000_0000_0000 * bytes[start + 1] + 0x100_0000_0000_0000 * bytes[start]
}

/// Eight bytes read least significant first are worth their powers of 256.
pub proof fn law_le_value_of_eight_bytes(bytes: Seq<u8>, start: int)
    requires
        0 <= start,
        start + 8 <= bytes.len(),
    ensures
        le_value(bytes.subrange(start, start + 8)) == le64_at(bytes, start),
{
    reveal_with_fuel(le_value, 9);
    let s = bytes.subrange(start, start + 8);
    assert(s.drop_first() =~= bytes.subrange(start + 1, start + 8));
    assert(bytes.subrange(start + 1, start + 8).drop_first() =~= bytes.subrange(
        start + 2,
        start + 8,
    ));
    assert(bytes.subrange(start + 2, start + 8).drop_first() =~= bytes.subrange(
        start + 3,
        start + 8,
    ));
    assert(bytes.subrange(start + 3, start + 8).drop_first() =~= bytes.subrange(
        start + 4,
        start + 8,
    ));
    assert(bytes.subrange(start + 4, start + 8).drop_first() =~= bytes.subrange(
        start + 5,
        start + 8,
    ));
    assert(bytes.subrange(start + 5, start + 8).drop_first() =~= bytes.subrange(
        start + 6,
        start + 8,
    ));
    assert(bytes.subrange(start + 6, start + 8).drop_first() =~= bytes.subrange(
        start + 7,
        start + 8,
    ));
    assert(bytes.subrange(start + 7, start + 8).drop_first().len() == 0);
}

/// Eight bytes read most significant first are worth their powers of 256.
pub proof fn law_be_value_of_eight_bytes(bytes: Seq<u8>, start: int)
    requires
        0 <= start,
        start + 8 <= bytes.len(),
    ensures
        be_value(bytes.subrange(start, start + 8)) == be64_at(bytes, start),
{
    reveal_with_fuel(be_value, 9);
    let s = bytes.subrange(start, start + 8);
    assert(s.drop_last() =~= bytes.subrange(start, start + 7));
    assert(bytes.subrange(start, start + 7).drop_last() =~= bytes.subrange(start, start + 6));
    assert(bytes.subrange(start, start + 6).drop_last() =~= bytes.subrange(start, start + 5));
    assert(bytes.subrange(start, start + 5).drop_last() =~= bytes.subrange(start, start + 4));
    assert(bytes.subrange(start, start + 4).drop_last() =~= bytes.subrange(start, start + 3));
    assert(bytes.subrange(start, start + 3).drop_last() =~= bytes.subrange(start, start + 2));
    assert(bytes.subrange(start, start + 2).drop_last() =~= bytes.subrange(start, start + 1));
    assert(bytes.subrange(start, start + 1).drop_last().len() == 0);
}

/// The digits of a number spell it: eight of them, least or most significant first, are worth it.
pub proof fn law_eight_digits_spell_the_number(x: u64)
    ensures
        le_digits(x as nat, 8).len() == 8,
        be_digits(x as nat, 8).len() == 8,
        le64_at(le_digits(x as nat, 8), 0) == x,
        be64_at(be_digits(x as nat, 8), 0) == x,
{
    let le = le_digits(x as nat, 8);
    let be = be_digits(x as nat, 8);
    lemma_le_digits_len(x as nat, 8);
    lemma_be_digits_len(x as nat, 8);
    lemma_radix_powers();
    lemma_le_value_of_digits(x as nat, 8);
    lemma_be_value_of_digits(x as nat, 8);
    law_le_value_of_eight_bytes(le, 0);
    law_be_value_of_eight_bytes(be, 0);
    assert(le.subrange(0, 8) =~= le);
    assert(be.subrange(0, 8) =~= be);
}

/// The number that four bytes spell, least significant first.
pub open spec fn le32_at(bytes: Seq<u8>, start: int) -> int {
    bytes[start] + 0x100 * bytes[start + 1] + 0x1_0000 * bytes[start + 2] + 0x100_0000 * bytes[start
        + 3]
}

/// Four bytes read least significant first are worth their powers of 256.
pub proof fn law_le_value_of_four_bytes(bytes: Seq<u8>, start: int)
    requires
        0 <= start,
        start + 4 <= bytes.len(),
    ensures
        le_value(bytes.subrange(start, start + 4)) == le32_at(bytes, start),
{
    reveal_with_fuel(le_value, 5);
    let s = bytes.subrange(start, start + 4);
    assert(s.drop_first() =~= bytes.subrange(start + 1, start + 4));
    assert(bytes.subrange(start + 1, start + 4).drop_first() =~= bytes.subrange(
        start + 2,
        start + 4,
    ));
    assert(bytes.subrange(start + 2, start + 4).drop_first() =~= bytes.subrange(
        start + 3,
        start + 4,
    ));
    assert(bytes.subrange(start + 3, start + 4).drop_first().len() == 0);
}

} // verus!
