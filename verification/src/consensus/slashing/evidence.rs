//! Evidence submission and fraud-proof verification.
//!
//! Anyone may submit evidence of validator misbehavior with [`EvidenceStore::submit`].
//!
//! Equivocation evidence and invalid-proposal evidence are laid out as
//! `[height:8][hash_a:32][hash_b:32]` (72 bytes), unavailability evidence as
//! `[missed_count:8][window_start:8]` (16 bytes), numbers little-endian. Equivocation is proved by
//! a non-zero height and two different hashes, an invalid proposal by a non-zero height,
//! unavailability by a count above the threshold.

use vstd::prelude::*;

use crate::byte_order::slices_equal;
use crate::codec::{
    law_le_value_of_eight_bytes, le64_at, le_digits, le_value, lemma_le_digits_len, lemma_le_value_of_digits, lemma_radix_powers,
    read_le64,
};
use crate::consensus::slashing::detector::{
    miss_recorded, miss_violation, proposal_evidence, proposal_violation, unavailability_evidence,
    DetectorState, OffenseType, UNAVAILABILITY_THRESHOLD,
};
use crate::consensus::view_change::types::{BlockHash, PublicKey};
use crate::ordered_map::OrderedMap;

verus! {

/// A single evidence submission from an arbitrary challenger.
#[derive(Clone, Debug, Eq, PartialEq)]
pub struct EvidenceSubmission {
    /// The accused validator.
    pub validator_id: PublicKey,
    /// The alleged offense.
    pub offense_type: OffenseType,
    /// Raw cryptographic evidence bytes.
    pub evidence: Vec<u8>,
    /// Bond posted by the submitter; forfeited if the submission is refuted.
    pub bond: u64,
    /// Public key of the entity that submitted this evidence.
    pub submitter: PublicKey,
    /// Sequence number assigned at submission time (monotonically increasing).
    pub submission_id: u64,
}

/// Outcome of a cryptographic evidence verification attempt.
#[derive(Clone, Copy, Debug, Eq, PartialEq, Structural)]
pub enum VerificationResult {
    /// Evidence is cryptographically valid.
    Valid,
    /// Evidence payload is too short or structurally malformed.
    InvalidFormat,
    /// Equivocation evidence does not show two conflicting hashes.
    NoConflict,
    /// The alleged offense type is not one of the recognised categories.
    UnknownOffenseType,
    /// Unavailability evidence does not show a count above the threshold.
    ThresholdNotExceeded,
}

/// Errors returned by evidence operations.
#[derive(Clone, Copy, Debug, Eq, PartialEq)]
pub enum EvidenceError {
    /// Cryptographic verification of the evidence failed.
    VerificationFailed(VerificationResult),
    /// A submission with this ID was not found.
    NotFound,
    /// The caller is not the original submitter of this evidence.
    Unauthorized,
}

/// Stateful store of evidence submissions.
///
/// Submissions are keyed by their monotonically-assigned `submission_id`. Duplicate evidence for
/// the same validator and offense is accepted, but each submission is independently verifiable.
#[derive(Clone, Debug)]
pub struct EvidenceStore {
    submissions: OrderedMap<u64, EvidenceSubmission>,
    next_id: u64,
}

/// What an evidence store holds.
pub struct StoreState {
    /// All submissions by their sequence number.
    pub submissions: Map<u64, EvidenceSubmission>,
    /// Next sequence number to assign.
    pub next_id: u64,
}

/// What the evidence proves of the alleged offense.
pub open spec fn verdict(offense_type: OffenseType, evidence: Seq<u8>) -> VerificationResult {
    match offense_type {
        OffenseType::Equivocation => {
            if evidence.len() < 72 || le_value(evidence.subrange(0, 8)) == 0 {
                VerificationResult::InvalidFormat
            } else if evidence.subrange(8, 40) == evidence.subrange(40, 72) {
                VerificationResult::NoConflict
            } else {
                VerificationResult::Valid
            }
        },
        OffenseType::Unavailability => {
            if evidence.len() < 16 {
                VerificationResult::InvalidFormat
            } else if le_value(evidence.subrange(0, 8)) <= UNAVAILABILITY_THRESHOLD {
                VerificationResult::ThresholdNotExceeded
            } else {
                VerificationResult::Valid
            }
        },
        OffenseType::InvalidProposal => {
            if evidence.len() < 72 || le_value(evidence.subrange(0, 8)) == 0 {
                VerificationResult::InvalidFormat
            } else {
                VerificationResult::Valid
            }
        },
    }
}

/// The store after evidence that passed verification has been submitted.
pub open spec fn evidence_stored(
    s: StoreState,
    submitter: PublicKey,
    validator_id: PublicKey,
    offense_type: OffenseType,
    evidence: Vec<u8>,
    bond: u64,
) -> StoreState {
    StoreState {
        submissions: s.submissions.insert(
            s.next_id,
            EvidenceSubmission {
                validator_id,
                offense_type,
                evidence,
                bond,
                submitter,
                submission_id: s.next_id,
            },
        ),
        next_id: s.next_id.saturating_add(1),
    }
}

/// The store without a submission.
pub open spec fn evidence_removed(s: StoreState, submission_id: u64) -> StoreState {
    StoreState { submissions: s.submissions.remove(submission_id), ..s }
}

/// What evidence about two blocks at a height proves.
pub proof fn lemma_proposal_evidence_verdict(height: u64, a: BlockHash, b: BlockHash)
    ensures
        height > 0 ==> verdict(OffenseType::InvalidProposal, proposal_evidence(height, a, b))
            == VerificationResult::Valid,
        height > 0 && a != b ==> verdict(
            OffenseType::Equivocation,
            proposal_evidence(height, a, b),
        ) == VerificationResult::Valid,
        height > 0 && a == b ==> verdict(
            OffenseType::Equivocation,
            proposal_evidence(height, a, b),
        ) == VerificationResult::NoConflict,
        height == 0 ==> verdict(OffenseType::Equivocation, proposal_evidence(height, a, b))
            == VerificationResult::InvalidFormat,
{
    let e = proposal_evidence(height, a, b);
    lemma_radix_powers();
    lemma_le_value_of_digits(height as nat, 8);
    assert(e.subrange(0, 8) =~= le_digits(height as nat, 8));
    assert(e.subrange(8, 40) =~= a@);
    assert(e.subrange(40, 72) =~= b@);
    crate::byte_order::lemma_array_view_injective(a, b);
}

/// Every proposal violation that the detector raises above height zero passes verification.
pub proof fn law_detected_proposal_offense_verifies(
    s: DetectorState,
    validator_id: PublicKey,
    height: u64,
    block_hash: BlockHash,
    is_valid: bool,
)
    requires
        height > 0,
        proposal_violation(s, validator_id, height, block_hash, is_valid) is Some,
    ensures
        ({
            let v = proposal_violation(s, validator_id, height, block_hash, is_valid)->0;
            verdict(v.offense_type, v.evidence) == VerificationResult::Valid
        }),
{
    lemma_proposal_evidence_verdict(height, block_hash, block_hash);
    let key = (height, validator_id@);
    lemma_proposal_evidence_verdict(height, s.proposals[key].block_hash, block_hash);
}

/// Every unavailability violation that the detector raises passes verification.
pub proof fn law_detected_unavailability_verifies(
    s: DetectorState,
    validator_id: PublicKey,
    now: u64,
)
    requires
        miss_violation(s, validator_id, now) is Some,
    ensures
        ({
            let v = miss_violation(s, validator_id, now)->0;
            verdict(v.offense_type, v.evidence) == VerificationResult::Valid
        }),
{
    let r = miss_recorded(s.misses, validator_id@, now);
    let e = unavailability_evidence(r.missed_count, r.window_start);
    lemma_radix_powers();
    lemma_le_value_of_digits(r.missed_count as nat, 8);
    lemma_le_digits_len(r.window_start as nat, 8);
    assert(e.subrange(0, 8) =~= le_digits(r.missed_count as nat, 8));
}

impl View for EvidenceStore {
    type V = StoreState;

    closed spec fn view(&self) -> StoreState {
        StoreState { submissions: self.submissions@, next_id: self.next_id }
    }
}

impl EvidenceStore {
    /// Every submission stands under its own number, was verified, and, as long as numbers are
    /// left, has a number below the next one.
    pub closed spec fn wf(&self) -> bool {
        &&& self.submissions.wf()
        &&& forall|id: u64| #[trigger]
            self.submissions@.dom().contains(id) ==> {
                &&& self.submissions@[id].submission_id == id
                &&& id <= self.next_id
                &&& self.next_id < u64::MAX ==> id < self.next_id
                &&& verdict(
                    self.submissions@[id].offense_type,
                    self.submissions@[id].evidence@,
                ) == VerificationResult::Valid
            }
    }

    /// Every stored submission stands under its own number, has been verified, and, while
    /// numbers are left, is older than the next one: a new submission never replaces another.
    pub proof fn law_submissions_numbered_and_verified(&self, id: u64)
        requires
            self.wf(),
            self@.submissions.dom().contains(id),
        ensures
            self@.submissions[id].submission_id == id,
            self@.next_id < u64::MAX ==> id < self@.next_id,
            verdict(self@.submissions[id].offense_type, self@.submissions[id].evidence@)
                == VerificationResult::Valid,
    {
    }

    /// Finitely many submissions are stored.
    pub proof fn law_finite(&self)
        requires
            self.wf(),
        ensures
            self@.submissions.dom().finite(),
    {
        self.submissions.lemma_finite();
    }

    /// Create an empty evidence store.
    pub fn new() -> (r: Self)
        ensures
            r.wf(),
            r@ == (StoreState { submissions: Map::empty(), next_id: 0 }),
    {
        EvidenceStore { submissions: OrderedMap::new(), next_id: 0 }
    }

    /// Submit evidence of validator misbehavior.
    ///
    /// Returns the assigned `submission_id` on success, or an
    /// [`EvidenceError::VerificationFailed`] if the fraud proof fails verification.
    pub fn submit(
        &mut self,
        submitter: PublicKey,
        validator_id: PublicKey,
        offense_type: OffenseType,
        evidence: Vec<u8>,
        bond: u64,
    ) -> (r: Result<u64, EvidenceError>)
        requires
            old(self).wf(),
        ensures
            final(self).wf(),
            verdict(offense_type, evidence@) != VerificationResult::Valid ==> {
                &&& r == Err::<u64, _>(
                    EvidenceError::VerificationFailed(verdict(offense_type, evidence@)),
                )
                &&& final(self)@ == old(self)@
            },
            verdict(offense_type, evidence@) == VerificationResult::Valid ==> {
                &&& r == Ok::<_, EvidenceError>(old(self)@.next_id)
                &&& final(self)@ == evidence_stored(
                    old(self)@,
                    submitter,
                    validator_id,
                    offense_type,
                    evidence,
                    bond,
                )
            },
    {
        let result: VerificationResult = Self::verify_fraud_proof(
            offense_type,
            evidence.as_slice(),
        );
        if result != VerificationResult::Valid {
            return Err(EvidenceError::VerificationFailed(result));
        }
        let id: u64 = self.next_id;
        self.next_id = self.next_id.saturating_add(1);
        self.submissions.insert(
            id,
            EvidenceSubmission {
                validator_id,
                offense_type,
                evidence,
                bond,
                submitter,
                submission_id: id,
            },
        );
        Ok(id)
    }

    /// Retrieve a submission by its ID.
    pub fn get(&self, submission_id: u64) -> (r: Option<&EvidenceSubmission>)
        requires
            self.wf(),
        ensures
            r is Some <==> self@.submissions.dom().contains(submission_id),
            r matches Some(s) ==> *s == self@.submissions[submission_id],
    {
        self.submissions.get(&submission_id)
    }

    /// All submissions currently in the store, by ascending number.
    pub fn all_submissions(&self) -> (r: Vec<&EvidenceSubmission>)
        requires
            self.wf(),
        ensures
            r@.len() == self@.submissions.dom().len(),
            forall|i: int|
                0 <= i < r@.len() ==> self@.submissions.dom().contains(
                    (#[trigger] r@[i]).submission_id,
                ) && *r@[i] == self@.submissions[r@[i].submission_id],
            forall|i: int, j: int|
                0 <= i < j < r@.len() ==> (#[trigger] r@[i]).submission_id < (
                #[trigger] r@[j]).submission_id,
    {
        let mut all: Vec<&EvidenceSubmission> = Vec::new();
        let n: usize = self.submissions.len();
        let mut i: usize = 0;
        while i < n
            invariant
                self.wf(),
                i <= n,
                n == self.submissions.count(),
                n == self@.submissions.dom().len(),
                all@.len() == i,
                forall|j: int|
                    0 <= j < i ==> *(#[trigger] all@[j]) == self.submissions.entries()[j].1,
            decreases n - i,
        {
            all.push(self.submissions.value_at(i));
            i = i + 1;
        }
        proof {
            self.submissions.lemma_ascending();
            assert forall|k: int| 0 <= k < all@.len() implies self@.submissions.dom().contains(
                (#[trigger] all@[k]).submission_id,
            ) && *all@[k] == self@.submissions[all@[k].submission_id] && all@[k].submission_id
                == self.submissions.entries()[k].0 by {
                self.submissions.lemma_at(k);
            }
        }
        all
    }

    /// Number of submissions in the store.
    pub fn len(&self) -> (r: usize)
        requires
            self.wf(),
        ensures
            r == self@.submissions.dom().len(),
    {
        self.submissions.len()
    }

    /// Whether the store is empty.
    pub fn is_empty(&self) -> (r: bool)
        requires
            self.wf(),
        ensures
            r == (self@.submissions == Map::<u64, EvidenceSubmission>::empty()),
    {
        self.submissions.is_empty()
    }

    /// Remove a submission (called after slashing is executed or evidence is refuted).
    pub fn remove(&mut self, submission_id: u64) -> (r: Option<EvidenceSubmission>)
        requires
            old(self).wf(),
        ensures
            final(self).wf(),
            r is Some <==> old(self)@.submissions.dom().contains(submission_id),
            r matches Some(s) ==> s == old(self)@.submissions[submission_id],
            final(self)@ == evidence_removed(old(self)@, submission_id),
    {
        self.submissions.remove(&submission_id)
    }

    /// Verify the integrity of evidence bytes for a given offense.
    pub fn verify_fraud_proof(offense_type: OffenseType, evidence: &[u8]) -> (r: VerificationResult)
        ensures
            r == verdict(offense_type, evidence@),
    {
        match offense_type {
            OffenseType::Equivocation => {
                if evidence.len() < 72 {
                    return VerificationResult::InvalidFormat;
                }
                let height: u64 = read_le64(evidence, 0);
                if height == 0 {
                    return VerificationResult::InvalidFormat;
                }
                let hash_a: &[u8] = vstd::slice::slice_subrange(evidence, 8, 40);
                let hash_b: &[u8] = vstd::slice::slice_subrange(evidence, 40, 72);
                if slices_equal(hash_a, hash_b) {
                    return VerificationResult::NoConflict;
                }
                VerificationResult::Valid
            },
            OffenseType::Unavailability => {
                if evidence.len() < 16 {
                    return VerificationResult::InvalidFormat;
                }
                let missed_count: u64 = read_le64(evidence, 0);
                if missed_count <= UNAVAILABILITY_THRESHOLD {
                    return VerificationResult::ThresholdNotExceeded;
                }
                VerificationResult::Valid
            },
            OffenseType::InvalidProposal => {
                if evidence.len() < 72 {
                    return VerificationResult::InvalidFormat;
                }
                let height: u64 = read_le64(evidence, 0);
                if height == 0 {
                    return VerificationResult::InvalidFormat;
                }
                VerificationResult::Valid
            },
        }
    }
}

impl Default for EvidenceStore {
    fn default() -> (r: Self)
        ensures
            r.wf(),
            r@ == (StoreState { submissions: Map::empty(), next_id: 0 }),
    {
        Self::new()
    }
}

/// Equivocation is proved by a height other than zero and two hashes that differ in some byte, an
/// invalid proposal by such a height alone, both in at least 72 bytes; unavailability by a count
/// above a hundred in at least 16 bytes.
pub proof fn law_what_evidence_proves(e: Seq<u8>)
    ensures
        ({
            let v = verdict(OffenseType::Equivocation, e);
            let whole = e.len() >= 72 && le64_at(e, 0) != 0;
            &&& v == VerificationResult::Valid <==> whole && exists|j: int|
                0 <= j < 32 && e[8 + j] != #[trigger] e[40 + j]
            &&& v == VerificationResult::NoConflict <==> whole && forall|j: int|
                0 <= j < 32 ==> e[8 + j] == #[trigger] e[40 + j]
            &&& v == VerificationResult::InvalidFormat <==> !whole
        }),
        ({
            let v = verdict(OffenseType::InvalidProposal, e);
            let whole = e.len() >= 72 && le64_at(e, 0) != 0;
            &&& v == VerificationResult::Valid <==> whole
            &&& v == VerificationResult::InvalidFormat <==> !whole
        }),
        ({
            let v = verdict(OffenseType::Unavailability, e);
            &&& v == VerificationResult::Valid <==> e.len() >= 16 && le64_at(e, 0) > 100
            &&& v == VerificationResult::ThresholdNotExceeded <==> e.len() >= 16 && le64_at(e, 0)
                <= 100
            &&& v == VerificationResult::InvalidFormat <==> e.len() < 16
        }),
{
    if e.len() >= 16 {
        law_le_value_of_eight_bytes(e, 0);
    }
    if e.len() >= 72 {
        let a = e.subrange(8, 40);
        let b = e.subrange(40, 72);
        if a == b {
            assert forall|j: int| 0 <= j < 32 implies e[8 + j] == #[trigger] e[40 + j] by {
                assert(a[j] == b[j]);
            }
        } else if forall|j: int| 0 <= j < 32 ==> e[8 + j] == #[trigger] e[40 + j] {
            assert forall|j: int| 0 <= j < 32 implies a[j] == b[j] by {
                assert(e[8 + j] == e[40 + j]);
            }
            assert(a =~= b);
        }
    }
}

/// A submission is stored under the next number with what was handed in; no other submission
/// changes, and the number is not given out again. Removing one leaves all others.
pub proof fn law_submission_is_stored_as_handed_in(
    s: StoreState,
    submitter: PublicKey,
    validator_id: PublicKey,
    offense_type: OffenseType,
    evidence: Vec<u8>,
    bond: u64,
    other: u64,
)
    requires
        s.next_id < u64::MAX,
        other != s.next_id,
    ensures
        ({
            let t = evidence_stored(s, submitter, validator_id, offense_type, evidence, bond);
            let u = evidence_removed(t, s.next_id);
            &&& t.submissions.dom().contains(s.next_id)
            &&& t.submissions[s.next_id].submitter == submitter
            &&& t.submissions[s.next_id].validator_id == validator_id
            &&& t.submissions[s.next_id].offense_type == offense_type
            &&& t.submissions[s.next_id].evidence == evidence
            &&& t.submissions[s.next_id].bond == bond
            &&& t.submissions[s.next_id].submission_id == s.next_id
            &&& t.next_id == s.next_id + 1
            &&& t.submissions.dom().contains(other) == s.submissions.dom().contains(other)
            &&& t.submissions[other] == s.submissions[other]
            &&& !u.submissions.dom().contains(s.next_id)
            &&& u.submissions.dom().contains(other) == s.submissions.dom().contains(other)
            &&& u.submissions[other] == s.submissions[other]
            &&& u.next_id == t.next_id
        }),
{
}

} // verus!
