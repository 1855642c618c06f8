//! Signature domains: the message kind and the fork version that a signature is bound to.

use vstd::prelude::*;

use crate::byte_order::{append, to_vec};
use crate::codec::read_array;

verus! {

/// Tag of a message kind.
pub type DomainType = [u8; 4];

/// Version of the protocol fork.
pub type ForkVersion = [u8; 4];

/// A domain: the message kind followed by the fork version.
pub type Domain = [u8; 8];

/// Message kind of block attestations.
pub const DOMAIN_BEACON_ATTESTER: DomainType = [0x01, 0x00, 0x00, 0x00];

/// Message kind of randomness reveals.
pub const DOMAIN_RANDAO: DomainType = [0x02, 0x00, 0x00, 0x00];

/// Fork version at genesis.
pub const GENESIS_FORK_VERSION: ForkVersion = [0x00, 0x00, 0x00, 0x00];

/// The bytes of a domain.
pub open spec fn domain_bytes(domain_type: DomainType, fork_version: ForkVersion) -> Seq<u8> {
    domain_type@ + fork_version@
}

/// The domain of a message kind under a fork version.
pub fn compute_domain(domain_type: DomainType, fork_version: ForkVersion) -> (r: Domain)
    ensures
        r@ == domain_bytes(domain_type, fork_version),
{
    let mut bytes: Vec<u8> = to_vec(domain_type.as_slice());
    append(&mut bytes, fork_version.as_slice());
    let r: Domain = read_array::<8>(bytes.as_slice(), 0);
    assert(r@ =~= domain_bytes(domain_type, fork_version));
    r
}

/// Message kinds or fork versions that differ give domains that differ.
pub proof fn law_domains_are_separated(
    type_a: DomainType,
    fork_a: ForkVersion,
    type_b: DomainType,
    fork_b: ForkVersion,
)
    requires
        domain_bytes(type_a, fork_a) == domain_bytes(type_b, fork_b),
    ensures
        type_a == type_b,
        fork_a == fork_b,
{
    let a = domain_bytes(type_a, fork_a);
    let b = domain_bytes(type_b, fork_b);
    assert(a.subrange(0, 4) =~= type_a@);
    assert(b.subrange(0, 4) =~= type_b@);
    assert(a.subrange(4, 8) =~= fork_a@);
    assert(b.subrange(4, 8) =~= fork_b@);
    crate::byte_order::lemma_array_view_injective(type_a, type_b);
    crate::byte_order::lemma_array_view_injective(fork_a, fork_b);
}

/// A domain is its type followed by the fork version.
pub proof fn law_domain_layout(domain_type: DomainType, fork_version: ForkVersion, i: int)
    requires
        0 <= i < 4,
    ensures
        domain_bytes(domain_type, fork_version).len() == 8,
        domain_bytes(domain_type, fork_version)[i] == domain_type@[i],
        domain_bytes(domain_type, fork_version)[4 + i] == fork_version@[i],
{
}

} // verus!
