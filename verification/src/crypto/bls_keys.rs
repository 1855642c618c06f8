//! Public keys as elements of a small cyclic group with a prime-order subgroup.
//!
//! The group is the integers modulo [`GROUP_ORDER`] under addition. It stands in for the curve
//! group of BLS keys: the elements of the subgroup are legitimate keys, the others have a part
//! of low order.

use vstd::prelude::*;

use crate::codec::{be_digits, u64_to_be};

verus! {

/// Order of the subgroup, a prime.
pub const SUBGROUP_ORDER: u64 = 1_000_003;

/// Index of the subgroup in the whole group.
pub const COFACTOR: u64 = 12;

/// Order of the whole group.
pub const GROUP_ORDER: u64 = 12_000_036;

/// A group element.
#[derive(Clone, Copy, Debug, PartialEq, Eq)]
pub struct G2Point {
    /// The element, as an integer modulo the group order.
    pub element: u64,
}

/// Adding `p` to itself as often as the subgroup has elements gives zero.
pub open spec fn in_subgroup(p: G2Point) -> bool {
    (p.element * SUBGROUP_ORDER) % (GROUP_ORDER as int) == 0
}

impl G2Point {
    /// The serialized key.
    pub fn to_bytes(&self) -> (r: [u8; 8])
        ensures
            r@ == be_digits(self.element as nat, 8),
    {
        u64_to_be(self.element)
    }
}

/// Whether a key lies in the prime-order subgroup.
pub fn subgroup_check_g2(p: &G2Point) -> (r: bool)
    ensures
        r == in_subgroup(*p),
{
    (p.element as u128 * SUBGROUP_ORDER as u128) % (GROUP_ORDER as u128) == 0
}

/// The `n`-th multiple of the subgroup's generator.
pub fn subgroup_member(n: u64) -> (r: G2Point)
    ensures
        in_subgroup(r),
        r.element == (n as int % SUBGROUP_ORDER as int) * COFACTOR,
{
    let k: u64 = n % SUBGROUP_ORDER;
    let r: G2Point = G2Point { element: k * COFACTOR };
    assert((k * 12) * 1_000_003 == k * 12_000_036) by (nonlinear_arith);
    assert((k * 12_000_036) % 12_000_036 == 0) by (nonlinear_arith);
    r
}

/// A key of low order, outside the subgroup.
pub fn low_order_point(n: u64) -> (r: G2Point)
    ensures
        !in_subgroup(r),
        r.element == (n as int % (COFACTOR - 1) + 1) * SUBGROUP_ORDER,
{
    let k: u64 = n % (COFACTOR - 1) + 1;
    let r: G2Point = G2Point { element: k * SUBGROUP_ORDER };
    r
}

/// A point lies in the subgroup exactly where its element is a multiple of the cofactor, twelve.
pub proof fn law_subgroup_is_the_multiples_of_twelve(p: G2Point)
    ensures
        in_subgroup(p) <==> p.element % 12 == 0,
{
    let x = p.element as int;
    let q = x / 12;
    let r = x % 12;
    assert(x * 1_000_003 == q * 12_000_036 + r * 1_000_003) by (nonlinear_arith)
        requires
            x == 12 * q + r,
    ;
    assert(0 <= r * 1_000_003 < 12_000_036);
    vstd::arithmetic::div_mod::lemma_fundamental_div_mod_converse(
        x * 1_000_003,
        12_000_036,
        q,
        r * 1_000_003,
    );
}

/// The group has twelve times as many elements as the subgroup.
pub proof fn law_group_in_numbers()
    ensures
        SUBGROUP_ORDER == 1_000_003,
        COFACTOR == 12,
        GROUP_ORDER == 12 * 1_000_003,
{
}

} // verus!
