//! Byzantine equivocation detector for consensus proposals.
//!
//! A Byzantine primary may send two different block proposals at the same height with valid
//! signatures (equivocation). The detector stores the first proposal seen per height and
//! proposer; on receiving a second, conflicting proposal it constructs and returns an
//! [`EquivocationProof`], which callers must broadcast to all peers so every honest replica can
//! immediately advance its view without waiting for the timeout.

use vstd::prelude::*;

use crate::byte_order::arrays_equal;
use crate::consensus::view_change::types::{AggregateSignature, BlockHash, PublicKey};
use crate::ordered_map::OrderedMap;

verus! {

/// A block proposal from a primary/leader at a specific height.
#[derive(Debug, Eq, PartialEq)]
pub struct Proposal {
    /// Consensus height (block number) this proposal is for.
    pub height: u64,
    /// Identity of the proposing replica.
    pub proposer: PublicKey,
    /// Hash of the proposed block.
    pub block_hash: BlockHash,
    /// Proposer's signature over `(height, block_hash)`.
    pub signature: AggregateSignature,
}

impl Clone for Proposal {
    fn clone(&self) -> (r: Self)
        ensures
            r == *self,
    {
        Proposal {
            height: self.height,
            proposer: self.proposer,
            block_hash: self.block_hash,
            signature: self.signature,
        }
    }
}

impl Proposal {
    /// Construct a new [`Proposal`].
    pub fn new(
        height: u64,
        proposer: PublicKey,
        block_hash: BlockHash,
        signature: AggregateSignature,
    ) -> (r: Self)
        ensures
            r == (Proposal { height, proposer, block_hash, signature }),
    {
        Proposal { height, proposer, block_hash, signature }
    }
}

/// Proof of Byzantine equivocation: two conflicting proposals from the same proposer at the same
/// height, both carrying valid (non-empty) signatures.
#[derive(Debug, Eq, PartialEq)]
pub struct EquivocationProof {
    /// The consensus height at which equivocation was detected.
    pub height: u64,
    /// The equivocating proposer's public key.
    pub proposer: PublicKey,
    /// First conflicting proposal.
    pub proposal_a: Proposal,
    /// Second conflicting proposal (distinct `block_hash` from `proposal_a`).
    pub proposal_b: Proposal,
}

impl Clone for EquivocationProof {
    fn clone(&self) -> (r: Self)
        ensures
            r == *self,
    {
        EquivocationProof {
            height: self.height,
            proposer: self.proposer,
            proposal_a: self.proposal_a.clone(),
            proposal_b: self.proposal_b.clone(),
        }
    }
}

/// Errors returned by [`EquivocationDetector::observe`].
#[derive(Clone, Copy, Debug, Eq, PartialEq)]
pub enum EquivocationError {
    /// The proposal carries a zero-byte (empty/unset) signature.
    InvalidSignature,
}

/// Stateful equivocation detector.
///
/// Stores the first valid proposal seen per height and proposer. Proposals for an identical
/// height, proposer and block hash are silently deduplicated.
#[derive(Clone, Debug, Eq, PartialEq)]
pub struct EquivocationDetector {
    seen: OrderedMap<(u64, PublicKey), Proposal>,
    proofs: Vec<EquivocationProof>,
}

/// What a detector knows.
pub struct SightingState {
    /// First proposal seen, by height and proposer.
    pub seen: Map<(u64, Seq<u8>), Proposal>,
    /// Proofs since they were last drained.
    pub proofs: Seq<EquivocationProof>,
}

/// The signature is set: some byte of it is not zero.
pub open spec fn is_signed(p: Proposal) -> bool {
    exists|i: int| 0 <= i < 96 && #[trigger] p.signature@[i] != 0
}

/// Where the detector keeps a proposal.
pub open spec fn slot(p: Proposal) -> (u64, Seq<u8>) {
    (p.height, p.proposer@)
}

/// Two signed proposals by one proposer for one height with different hashes.
pub open spec fn is_genuine(proof: EquivocationProof) -> bool {
    &&& proof.proposal_a.height == proof.height
    &&& proof.proposal_b.height == proof.height
    &&& proof.proposal_a.proposer == proof.proposer
    &&& proof.proposal_b.proposer == proof.proposer
    &&& proof.proposal_a.block_hash != proof.proposal_b.block_hash
    &&& is_signed(proof.proposal_a)
    &&& is_signed(proof.proposal_b)
}

/// What observing a proposal returns.
pub open spec fn observation(s: SightingState, p: Proposal) -> Result<
    Option<EquivocationProof>,
    EquivocationError,
> {
    if !is_signed(p) {
        Err(EquivocationError::InvalidSignature)
    } else if s.seen.dom().contains(slot(p)) && s.seen[slot(p)].block_hash != p.block_hash {
        Ok(
            Some(
                EquivocationProof {
                    height: p.height,
                    proposer: p.proposer,
                    proposal_a: s.seen[slot(p)],
                    proposal_b: p,
                },
            ),
        )
    } else {
        Ok(None)
    }
}

/// What the detector knows after observing a proposal.
pub open spec fn observed(s: SightingState, p: Proposal) -> SightingState {
    match observation(s, p) {
        Err(_) => s,
        Ok(Some(proof)) => SightingState { proofs: s.proofs.push(proof), ..s },
        Ok(None) => if s.seen.dom().contains(slot(p)) {
            s
        } else {
            SightingState { seen: s.seen.insert(slot(p), p), ..s }
        },
    }
}

/// Of two signed proposals by one proposer for one height with different hashes, the second one
/// observed yields a proof that holds both, when the first one was the first for its slot.
pub proof fn law_equivocation_is_detected(s: SightingState, first: Proposal, second: Proposal)
    requires
        is_signed(first),
        is_signed(second),
        slot(first) == slot(second),
        first.block_hash != second.block_hash,
        !s.seen.dom().contains(slot(first)),
    ensures
        observation(observed(s, first), second) == Ok::<_, EquivocationError>(
            Some(
                EquivocationProof {
                    height: second.height,
                    proposer: second.proposer,
                    proposal_a: first,
                    proposal_b: second,
                },
            ),
        ),
{
}

/// Observing a proposal again changes nothing more and yields no proof, when it was the first for
/// its slot.
pub proof fn law_duplicate_is_silent(s: SightingState, p: Proposal)
    requires
        is_signed(p),
        !s.seen.dom().contains(slot(p)),
    ensures
        observation(observed(s, p), p) == Ok::<_, EquivocationError>(None::<EquivocationProof>),
        observed(observed(s, p), p) == observed(s, p),
{
}

impl View for EquivocationDetector {
    type V = SightingState;

    closed spec fn view(&self) -> SightingState {
        SightingState { seen: self.seen@, proofs: self.proofs@ }
    }
}

/// Whether every byte of the signature is zero.
fn is_unsigned(signature: &AggregateSignature) -> (r: bool)
    ensures
        r == !(exists|i: int| 0 <= i < 96 && #[trigger] signature@[i] != 0),
{
    let mut i: usize = 0;
    while i < 96
        invariant
            i <= 96,
            forall|j: int| 0 <= j < i ==> #[trigger] signature@[j] == 0,
        decreases 96 - i,
    {
        if signature[i] != 0 {
            assert(signature@[i as int] != 0);
            return false;
        }
        i = i + 1;
    }
    true
}

impl EquivocationDetector {
    /// Every proposal seen is signed and stands in its slot; every proof is genuine.
    pub closed spec fn wf(&self) -> bool {
        &&& self.seen.wf()
        &&& forall|k: (u64, Seq<u8>)| #[trigger]
            self.seen@.dom().contains(k) ==> slot(self.seen@[k]) == k && is_signed(self.seen@[k])
        &&& forall|i: int| 0 <= i < self.proofs@.len() ==> is_genuine(#[trigger] self.proofs@[i])
    }

    /// Finitely many proposals are tracked, each signed and in its slot.
    pub proof fn law_in_order(&self, k: (u64, Seq<u8>))
        requires
            self.wf(),
        ensures
            self@.seen.dom().finite(),
            self@.seen.dom().contains(k) ==> slot(self@.seen[k]) == k && is_signed(self@.seen[k]),
    {
        self.seen.lemma_finite();
    }

    /// Every proof that the detector holds is genuine.
    pub proof fn law_proofs_are_genuine(&self, i: int)
        requires
            self.wf(),
            0 <= i < self@.proofs.len(),
        ensures
            is_genuine(self@.proofs[i]),
    {
    }

    /// Create a new, empty detector.
    pub fn new() -> (r: Self)
        ensures
            r.wf(),
            r@ == (SightingState { seen: Map::empty(), proofs: Seq::empty() }),
    {
        EquivocationDetector { seen: OrderedMap::new(), proofs: Vec::new() }
    }

    /// Observe an incoming proposal.
    ///
    /// Returns `Ok(Some(proof))` when equivocation is detected (callers must broadcast the
    /// proof), `Ok(None)` for the first proposal of this height and proposer or an identical
    /// duplicate, and an error when the proposal carries an all-zero signature.
    pub fn observe(&mut self, proposal: Proposal) -> (r: Result<
        Option<EquivocationProof>,
        EquivocationError,
    >)
        requires
            old(self).wf(),
        ensures
            final(self).wf(),
            r == observation(old(self)@, proposal),
            final(self)@ == observed(old(self)@, proposal),
            r matches Ok(Some(proof)) ==> is_genuine(proof),
    {
        if is_unsigned(&proposal.signature) {
            return Err(EquivocationError::InvalidSignature);
        }
        assert(is_signed(proposal));
        let key: (u64, PublicKey) = (proposal.height, proposal.proposer);
        if let Some(existing) = self.seen.get(&key) {
            if arrays_equal(&existing.block_hash, &proposal.block_hash) {
                return Ok(None);
            }
            proof {
                crate::byte_order::lemma_array_view_injective(
                    existing.proposer,
                    proposal.proposer,
                );
            }
            let proof_of_it: EquivocationProof = EquivocationProof {
                height: proposal.height,
                proposer: proposal.proposer,
                proposal_a: existing.clone(),
                proposal_b: proposal,
            };
            self.proofs.push(proof_of_it.clone());
            return Ok(Some(proof_of_it));
        }
        self.seen.insert(key, proposal);
        Ok(None)
    }

    /// All equivocation proofs emitted by this detector since they were last drained.
    pub fn proofs(&self) -> (r: &[EquivocationProof])
        ensures
            r@ == self@.proofs,
    {
        self.proofs.as_slice()
    }

    /// Drain and return all accumulated equivocation proofs, clearing the log.
    pub fn drain_proofs(&mut self) -> (r: Vec<EquivocationProof>)
        requires
            old(self).wf(),
        ensures
            final(self).wf(),
            r@ == old(self)@.proofs,
            final(self)@ == (SightingState { proofs: Seq::empty(), ..old(self)@ }),
    {
        let mut drained: Vec<EquivocationProof> = Vec::new();
        core::mem::swap(&mut self.proofs, &mut drained);
        drained
    }

    /// Number of unique `(height, proposer)` entries currently tracked.
    pub fn tracked_count(&self) -> (r: usize)
        requires
            self.wf(),
        ensures
            r == self@.seen.dom().len(),
    {
        self.seen.len()
    }
}

impl Default for EquivocationDetector {
    fn default() -> (r: Self)
        ensures
            r.wf(),
            r@ == (SightingState { seen: Map::empty(), proofs: Seq::empty() }),
    {
        Self::new()
    }
}

/// A proposal whose signature is all zero is refused and leaves no trace. Any other is answered
/// with a proof exactly where another block of the same proposer was seen at its height, and the
/// proof shows the block seen first and the new one.
pub proof fn law_what_is_observed(s: SightingState, p: Proposal)
    ensures
        ({
            let answer = observation(s, p);
            let t = observed(s, p);
            let k = (p.height, p.proposer@);
            let unsigned = forall|i: int| 0 <= i < 96 ==> #[trigger] p.signature@[i] == 0;
            let conflict = s.seen.dom().contains(k) && s.seen[k].block_hash != p.block_hash;
            &&& answer is Err <==> unsigned
            &&& answer is Err ==> t == s
            &&& answer matches Ok(found) ==> {
                &&& found is Some <==> conflict
                &&& found matches Some(proof) ==> {
                    &&& proof.height == p.height
                    &&& proof.proposer == p.proposer
                    &&& proof.proposal_a == s.seen[k]
                    &&& proof.proposal_b == p
                    &&& t.proofs.len() == s.proofs.len() + 1
                    &&& t.proofs.last() == proof
                }
                &&& found is None ==> t.proofs == s.proofs
                &&& t.seen.dom().contains(k)
                &&& !s.seen.dom().contains(k) ==> t.seen[k] == p
            }
        }),
{
}

/// What was seen first stays, for every height and proposer, and so do the proofs; a proposal adds
/// to its own height and proposer alone.
pub proof fn law_first_sighting_stays(s: SightingState, p: Proposal, k: (u64, Seq<u8>), i: int)
    ensures
        ({
            let t = observed(s, p);
            &&& s.seen.dom().contains(k) ==> t.seen.dom().contains(k) && t.seen[k] == s.seen[k]
            &&& k != (p.height, p.proposer@) && t.seen.dom().contains(k) ==> s.seen.dom().contains(
                k,
            )
            &&& 0 <= i < s.proofs.len() ==> t.proofs[i] == s.proofs[i]
        }),
{
}

} // verus!
