//! Arithmetic on machine integers that stops at the largest value.

use vstd::arithmetic::power2::{lemma_pow2_strictly_increases, lemma_pow2_unfold, pow2};
use vstd::prelude::*;

verus! {

/// `x`, or the largest `u64` where `x` exceeds it.
pub open spec fn capped(x: int) -> u64 {
    if x > u64::MAX {
        u64::MAX
    } else {
        x as u64
    }
}

/// The smaller of two numbers.
pub open spec fn least(a: int, b: int) -> int {
    if a <= b {
        a
    } else {
        b
    }
}

/// The larger of two numbers.
pub open spec fn greatest(a: int, b: int) -> int {
    if a >= b {
        a
    } else {
        b
    }
}

/// The product, or the largest `u64` where it does not fit.
pub fn saturating_product(a: u64, b: u64) -> (r: u64)
    ensures
        r == capped(a * b),
{
    match a.checked_mul(b) {
        Some(p) => p,
        None => u64::MAX,
    }
}

/// The product over a divisor, rounded down, or the largest `u64` where that does not fit.
pub fn scaled(a: u64, by: u64, over: u64) -> (r: u64)
    requires
        over > 0,
    ensures
        r == capped((a * by) / over as int),
{
    assert(0 <= a * by <= 0xffff_ffff_ffff_ffff * 0xffff_ffff_ffff_ffff) by (nonlinear_arith)
        requires
            0 <= a <= 0xffff_ffff_ffff_ffff,
            0 <= by <= 0xffff_ffff_ffff_ffff,
    ;
    let q: u128 = (a as u128 * by as u128) / over as u128;
    if q > u64::MAX as u128 {
        u64::MAX
    } else {
        q as u64
    }
}

/// The larger of two numbers.
pub fn max_u64(a: u64, b: u64) -> (r: u64)
    ensures
        r == greatest(a as int, b as int),
{
    if a >= b {
        a
    } else {
        b
    }
}

/// `base` doubled `times` times, but no more than `cap`.
pub fn doubled_up_to(base: u64, times: u64, cap: u64) -> (r: u64)
    requires
        base > 0,
    ensures
        r == least(base * pow2(times as nat), cap as int),
{
    let mut value: u64 = base;
    let mut done: u64 = 0;
    proof {
        vstd::arithmetic::power2::lemma2_to64();
    }
    while done < times
        invariant
            base > 0,
            done <= times,
            value == base * pow2(done as nat),
            value > 0,
        decreases times - done,
    {
        proof {
            lemma_pow2_strictly_increases(done as nat, times as nat);
            lemma_pow2_unfold((done + 1) as nat);
            let p = pow2(done as nat) as int;
            let q = pow2(times as nat) as int;
            let n = pow2((done + 1) as nat) as int;
            assert(base * p <= base * q) by (nonlinear_arith)
                requires
                    p < q,
                    base > 0,
            ;
            assert(n <= q) by {
                if done + 1 < times {
                    lemma_pow2_strictly_increases((done + 1) as nat, times as nat);
                }
            }
            assert(base * n == 2 * (base * p)) by (nonlinear_arith)
                requires
                    n == 2 * p,
            ;
            assert(base * n <= base * q) by (nonlinear_arith)
                requires
                    n <= q,
                    base > 0,
            ;
        }
        if value >= cap || value > u64::MAX / 2 {
            return cap;
        }
        value = value * 2;
        done = done + 1;
    }
    if value <= cap {
        value
    } else {
        cap
    }
}

/// Doubling once more never makes the result smaller.
pub proof fn lemma_doubling_monotone(base: u64, fewer: nat, more: nat, cap: u64)
    requires
        fewer <= more,
    ensures
        least(base * pow2(fewer), cap as int) <= least(base * pow2(more), cap as int),
{
    if fewer < more {
        lemma_pow2_strictly_increases(fewer, more);
    }
    let p = pow2(fewer) as int;
    let q = pow2(more) as int;
    assert(base * p <= base * q) by (nonlinear_arith)
        requires
            p <= q,
            base >= 0,
    ;
}

} // verus!
