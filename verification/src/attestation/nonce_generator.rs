//! Epoch-scoped nonce generation for the proof-of-connectivity protocol.
//!
//! Each nonce is `BLAKE2b-256(epoch_id_le || random_seed || node_id)`: the epoch is part of what is
//! hashed, so challenges of different epochs hash different inputs even with the same seed and
//! node.

use vstd::prelude::*;

use crate::attestation::types::{EpochId, NodeId, Nonce, RandomSeed};
use crate::byte_order::{append, lemma_array_view_injective, to_vec};
use crate::codec::{
    le_digits, lemma_le_digits_injective, lemma_le_digits_len, lemma_radix_powers, u32_to_le,
};
use crate::crypto::blake2b::{blake2b_256, blake2b_256_digest};

verus! {

/// What is hashed into a nonce: epoch, seed and node.
pub open spec fn nonce_input(epoch_id: EpochId, seed: RandomSeed, node_id: NodeId) -> Seq<u8> {
    le_digits(epoch_id as nat, 4) + seed.0@ + node_id@
}

/// The nonce of an epoch, a seed and a node.
pub open spec fn nonce_of(epoch_id: EpochId, seed: RandomSeed, node_id: NodeId) -> Seq<u8> {
    blake2b_256_digest(nonce_input(epoch_id, seed, node_id))
}

/// The epoch, the seed and the node are bound into what is hashed: where one of them differs, so
/// does the input of the hash.
pub proof fn law_nonce_input_binds_every_part(
    epoch_a: EpochId,
    seed_a: RandomSeed,
    node_a: NodeId,
    epoch_b: EpochId,
    seed_b: RandomSeed,
    node_b: NodeId,
)
    requires
        nonce_input(epoch_a, seed_a, node_a) == nonce_input(epoch_b, seed_b, node_b),
    ensures
        epoch_a == epoch_b,
        seed_a == seed_b,
        node_a == node_b,
{
    let a = nonce_input(epoch_a, seed_a, node_a);
    let b = nonce_input(epoch_b, seed_b, node_b);
    lemma_le_digits_len(epoch_a as nat, 4);
    lemma_le_digits_len(epoch_b as nat, 4);
    assert(a.subrange(0, 4) =~= le_digits(epoch_a as nat, 4));
    assert(b.subrange(0, 4) =~= le_digits(epoch_b as nat, 4));
    assert(a.subrange(4, 36) =~= seed_a.0@);
    assert(b.subrange(4, 36) =~= seed_b.0@);
    assert(a.subrange(36, 68) =~= node_a@);
    assert(b.subrange(36, 68) =~= node_b@);
    lemma_radix_powers();
    lemma_le_digits_injective(epoch_a as nat, epoch_b as nat, 4);
    lemma_array_view_injective(seed_a.0, seed_b.0);
    lemma_array_view_injective(node_a, node_b);
}

/// Derive a 256-bit, epoch-scoped nonce.
pub fn derive_nonce(epoch_id: EpochId, seed: &RandomSeed, node_id: &NodeId) -> (r: Nonce)
    ensures
        r@ == nonce_of(epoch_id, *seed, *node_id),
{
    let mut input: Vec<u8> = to_vec(u32_to_le(epoch_id).as_slice());
    append(&mut input, seed.0.as_slice());
    append(&mut input, node_id.as_slice());
    blake2b_256(input.as_slice())
}

/// What is hashed is the epoch in four bytes, least significant first, the seed and the node.
pub proof fn law_nonce_input_layout(
    epoch_id: EpochId,
    seed: RandomSeed,
    node_id: NodeId,
    i: int,
)
    requires
        0 <= i < 32,
    ensures
        ({
            let input = nonce_input(epoch_id, seed, node_id);
            &&& input.len() == 68
            &&& input[0] + 0x100 * input[1] + 0x1_0000 * input[2] + 0x100_0000 * input[3]
                == epoch_id
            &&& input[4 + i] == seed.0@[i]
            &&& input[36 + i] == node_id@[i]
            &&& nonce_of(epoch_id, seed, node_id) == blake2b_256_digest(input)
        }),
{
    lemma_le_digits_len(epoch_id as nat, 4);
    reveal_with_fuel(le_digits, 5);
}

} // verus!
