//! Slashing condition detector for validator misbehavior.
//!
//! Scans for the three slashable offenses:
//! 1. **Equivocation**: a validator proposed two conflicting blocks at the same height.
//! 2. **Unavailability**: a validator missed more than 100 attestations in a 24-hour window.
//! 3. **Invalid proposal**: a validator proposed a structurally invalid block.
//!
//! Callers collect the returned [`SlashingViolation`] values and forward them to the evidence
//! layer.

use vstd::prelude::*;

use crate::byte_order::{append, arrays_equal, to_vec};
use crate::codec::{le_digits, u64_to_le};
use crate::consensus::view_change::types::{BlockHash, PublicKey};
use crate::ordered_map::OrderedMap;
use crate::seqs::lemma_map_values_push;

verus! {

/// Attestation-unavailability threshold per 24-hour window.
/// A missed count strictly above this value triggers slashing.
pub const UNAVAILABILITY_THRESHOLD: u64 = 100;

/// 24 hours expressed in seconds: the observation window for missed attestations.
pub const ATTESTATION_WINDOW_SECS: u64 = 86_400;

/// The three slashable offense categories defined by the protocol.
#[derive(Clone, Copy, Debug, Eq, PartialEq, Structural)]
pub enum OffenseType {
    /// Validator proposed two different blocks at the same height.
    Equivocation,
    /// Validator missed more than [`UNAVAILABILITY_THRESHOLD`] attestations in 24 h.
    Unavailability,
    /// Validator proposed an invalid (e.g., structurally malformed) block.
    InvalidProposal,
}

/// A confirmed slashing violation ready for evidence submission.
#[derive(Debug, Eq, PartialEq)]
pub struct SlashingViolation {
    /// Validator that committed the offense.
    pub validator_id: PublicKey,
    /// Category of the offense.
    pub offense_type: OffenseType,
    /// Raw cryptographic evidence (serialized proof bytes).
    pub evidence: Vec<u8>,
}

/// What a violation says.
pub struct ViolationModel {
    pub validator_id: PublicKey,
    pub offense_type: OffenseType,
    pub evidence: Seq<u8>,
}

impl View for SlashingViolation {
    type V = ViolationModel;

    open spec fn view(&self) -> ViolationModel {
        ViolationModel {
            validator_id: self.validator_id,
            offense_type: self.offense_type,
            evidence: self.evidence@,
        }
    }
}

impl Clone for SlashingViolation {
    fn clone(&self) -> (r: Self)
        ensures
            r@ == self@,
    {
        SlashingViolation {
            validator_id: self.validator_id,
            offense_type: self.offense_type,
            evidence: to_vec(self.evidence.as_slice()),
        }
    }
}

/// A single block proposal observed by the detector.
#[derive(Clone, Debug, Eq, PartialEq)]
pub struct ObservedProposal {
    /// Consensus height at which the block was proposed.
    pub height: u64,
    /// Hash of the proposed block.
    pub block_hash: BlockHash,
    /// Whether this proposal is structurally valid.
    pub is_valid: bool,
}

/// Per-validator missed-attestation counter within a rolling 24-hour window.
#[derive(Clone, Copy, Debug)]
pub struct AttestationRecord {
    /// Number of missed attestations within the current window.
    pub missed_count: u64,
    /// Unix timestamp (seconds) at which the current window started.
    pub window_start: u64,
}

/// Stateful detector that monitors validator proposals and attestation inclusion for slashable
/// misbehavior.
///
/// * Each `(height, validator)` pair stores at most one reference proposal; a second proposal
///   with a different `block_hash` is immediately flagged as equivocation.
/// * Duplicate proposals (same height, same proposer, same hash) are silently deduplicated.
/// * Missed-attestation counts are scoped to rolling 24-hour windows; the window resets when
///   `current_time >= window_start + ATTESTATION_WINDOW_SECS`.
#[derive(Clone, Debug)]
pub struct SlashingConditionDetector {
    proposals: OrderedMap<(u64, PublicKey), ObservedProposal>,
    attestation_records: OrderedMap<PublicKey, AttestationRecord>,
    violations: Vec<SlashingViolation>,
}

/// What a detector knows.
pub struct DetectorState {
    /// First valid proposal seen per height and validator.
    pub proposals: Map<(u64, Seq<u8>), ObservedProposal>,
    /// Missed-attestation tracking per validator.
    pub misses: Map<Seq<u8>, AttestationRecord>,
    /// Accumulated violations awaiting evidence submission.
    pub violations: Seq<ViolationModel>,
}

/// Evidence bytes for a proposal offense: height, first hash, second hash.
pub open spec fn proposal_evidence(height: u64, a: BlockHash, b: BlockHash) -> Seq<u8> {
    le_digits(height as nat, 8) + a@ + b@
}

/// Evidence bytes for an unavailability offense: missed count, start of the window.
pub open spec fn unavailability_evidence(missed_count: u64, window_start: u64) -> Seq<u8> {
    le_digits(missed_count as nat, 8) + le_digits(window_start as nat, 8)
}

/// The violation that a proposal gives rise to.
pub open spec fn proposal_violation(
    s: DetectorState,
    validator_id: PublicKey,
    height: u64,
    block_hash: BlockHash,
    is_valid: bool,
) -> Option<ViolationModel> {
    let key = (height, validator_id@);
    if !is_valid {
        Some(
            ViolationModel {
                validator_id,
                offense_type: OffenseType::InvalidProposal,
                evidence: proposal_evidence(height, block_hash, block_hash),
            },
        )
    } else if s.proposals.dom().contains(key) && s.proposals[key].block_hash != block_hash {
        Some(
            ViolationModel {
                validator_id,
                offense_type: OffenseType::Equivocation,
                evidence: proposal_evidence(height, s.proposals[key].block_hash, block_hash),
            },
        )
    } else {
        None
    }
}

/// The reference proposals after one more proposal.
pub open spec fn proposals_after(
    s: DetectorState,
    validator_id: PublicKey,
    height: u64,
    block_hash: BlockHash,
    is_valid: bool,
) -> Map<(u64, Seq<u8>), ObservedProposal> {
    if is_valid && !s.proposals.dom().contains((height, validator_id@)) {
        s.proposals.insert(
            (height, validator_id@),
            ObservedProposal { height, block_hash, is_valid: true },
        )
    } else {
        s.proposals
    }
}

/// The missed-attestation record of a validator after one more miss.
pub open spec fn miss_recorded(
    misses: Map<Seq<u8>, AttestationRecord>,
    validator_id: Seq<u8>,
    now: u64,
) -> AttestationRecord {
    if misses.dom().contains(validator_id) {
        let r = misses[validator_id];
        if now >= r.window_start.saturating_add(ATTESTATION_WINDOW_SECS) {
            AttestationRecord { missed_count: 1, window_start: now }
        } else {
            AttestationRecord {
                missed_count: r.missed_count.saturating_add(1),
                window_start: r.window_start,
            }
        }
    } else {
        AttestationRecord { missed_count: 1, window_start: now }
    }
}

/// The violation that a missed attestation gives rise to.
pub open spec fn miss_violation(s: DetectorState, validator_id: PublicKey, now: u64) -> Option<
    ViolationModel,
> {
    let r = miss_recorded(s.misses, validator_id@, now);
    if r.missed_count > UNAVAILABILITY_THRESHOLD {
        Some(
            ViolationModel {
                validator_id,
                offense_type: OffenseType::Unavailability,
                evidence: unavailability_evidence(r.missed_count, r.window_start),
            },
        )
    } else {
        None
    }
}

/// The log with the violation, if there is one, at its end.
pub open spec fn logged(log: Seq<ViolationModel>, v: Option<ViolationModel>) -> Seq<
    ViolationModel,
> {
    match v {
        Some(v) => log.push(v),
        None => log,
    }
}

/// The detector after a proposal.
pub open spec fn proposal_observed(
    s: DetectorState,
    validator_id: PublicKey,
    height: u64,
    block_hash: BlockHash,
    is_valid: bool,
) -> DetectorState {
    DetectorState {
        proposals: proposals_after(s, validator_id, height, block_hash, is_valid),
        violations: logged(
            s.violations,
            proposal_violation(s, validator_id, height, block_hash, is_valid),
        ),
        ..s
    }
}

/// The detector after a missed attestation.
pub open spec fn attestation_missed(
    s: DetectorState,
    validator_id: PublicKey,
    now: u64,
) -> DetectorState {
    DetectorState {
        misses: s.misses.insert(validator_id@, miss_recorded(s.misses, validator_id@, now)),
        violations: logged(s.violations, miss_violation(s, validator_id, now)),
        ..s
    }
}

/// What a returned violation says.
pub open spec fn violation_model(v: Option<SlashingViolation>) -> Option<ViolationModel> {
    match v {
        Some(v) => Some(v@),
        None => None,
    }
}

/// A valid proposal that repeats the reference proposal changes nothing and raises nothing.
pub proof fn law_duplicate_proposal_is_silent(
    s: DetectorState,
    validator_id: PublicKey,
    height: u64,
    block_hash: BlockHash,
)
    requires
        s.proposals.dom().contains((height, validator_id@)),
        s.proposals[(height, validator_id@)].block_hash == block_hash,
    ensures
        proposal_violation(s, validator_id, height, block_hash, true) is None,
        proposals_after(s, validator_id, height, block_hash, true) == s.proposals,
{
}

/// After a valid proposal, another one by the same validator at the same height with a different
/// hash is equivocation.
pub proof fn law_conflicting_proposals_are_equivocation(
    s: DetectorState,
    validator_id: PublicKey,
    height: u64,
    first: BlockHash,
    second: BlockHash,
)
    requires
        !s.proposals.dom().contains((height, validator_id@)),
        first != second,
    ensures
        proposal_violation(
            DetectorState {
                proposals: proposals_after(s, validator_id, height, first, true),
                ..s
            },
            validator_id,
            height,
            second,
            true,
        ) == Some(
            ViolationModel {
                validator_id,
                offense_type: OffenseType::Equivocation,
                evidence: proposal_evidence(height, first, second),
            },
        ),
{
}

impl View for SlashingConditionDetector {
    type V = DetectorState;

    closed spec fn view(&self) -> DetectorState {
        DetectorState {
            proposals: self.proposals@,
            misses: self.attestation_records@,
            violations: self.violations@.map_values(|v: SlashingViolation| v@),
        }
    }
}

/// Encode evidence bytes for a proposal offense.
fn encode_proposal_evidence(height: u64, hash_a: &BlockHash, hash_b: &BlockHash) -> (r: Vec<u8>)
    ensures
        r@ == proposal_evidence(height, *hash_a, *hash_b),
{
    let mut buf: Vec<u8> = to_vec(u64_to_le(height).as_slice());
    append(&mut buf, hash_a.as_slice());
    append(&mut buf, hash_b.as_slice());
    buf
}

/// Encode evidence bytes for an unavailability offense.
fn encode_unavailability_evidence(missed_count: u64, window_start: u64) -> (r: Vec<u8>)
    ensures
        r@ == unavailability_evidence(missed_count, window_start),
{
    let mut buf: Vec<u8> = to_vec(u64_to_le(missed_count).as_slice());
    append(&mut buf, u64_to_le(window_start).as_slice());
    buf
}

impl SlashingConditionDetector {
    /// The tables are in order.
    pub closed spec fn wf(&self) -> bool {
        &&& self.proposals.wf()
        &&& self.attestation_records.wf()
    }

    /// Finitely many proposals and attestation records are tracked.
    pub proof fn law_finite(&self)
        requires
            self.wf(),
        ensures
            self@.proposals.dom().finite(),
            self@.misses.dom().finite(),
    {
        self.proposals.lemma_finite();
        self.attestation_records.lemma_finite();
    }

    /// Create a new, empty detector.
    pub fn new() -> (r: Self)
        ensures
            r.wf(),
            r@ == (DetectorState {
                proposals: Map::empty(),
                misses: Map::empty(),
                violations: Seq::empty(),
            }),
    {
        let r = SlashingConditionDetector {
            proposals: OrderedMap::new(),
            attestation_records: OrderedMap::new(),
            violations: Vec::new(),
        };
        assert(r@.violations =~= Seq::empty());
        r
    }

    /// Puts a violation on the log and hands it out.
    fn raise(&mut self, violation: SlashingViolation) -> (r: Option<SlashingViolation>)
        requires
            old(self).wf(),
        ensures
            final(self).wf(),
            violation_model(r) == Some(violation@),
            final(self)@ == (DetectorState {
                violations: old(self)@.violations.push(violation@),
                ..old(self)@
            }),
    {
        let copy: SlashingViolation = violation.clone();
        proof {
            lemma_map_values_push(self.violations@, violation, |v: SlashingViolation| v@);
        }
        self.violations.push(violation);
        Some(copy)
    }

    /// Observe a block proposal from `validator_id` at `height`.
    ///
    /// Returns `Some(violation)` when an equivocation or invalid-proposal offense is detected,
    /// `None` for the first valid proposal of this height and validator, or a duplicate.
    pub fn observe_proposal(
        &mut self,
        validator_id: PublicKey,
        height: u64,
        block_hash: BlockHash,
        is_valid: bool,
    ) -> (r: Option<SlashingViolation>)
        requires
            old(self).wf(),
        ensures
            final(self).wf(),
            violation_model(r) == proposal_violation(
                old(self)@,
                validator_id,
                height,
                block_hash,
                is_valid,
            ),
            final(self)@ == proposal_observed(
                old(self)@,
                validator_id,
                height,
                block_hash,
                is_valid,
            ),
    {
        if !is_valid {
            let evidence: Vec<u8> = encode_proposal_evidence(height, &block_hash, &block_hash);
            return self.raise(
                SlashingViolation {
                    validator_id,
                    offense_type: OffenseType::InvalidProposal,
                    evidence,
                },
            );
        }
        let key: (u64, PublicKey) = (height, validator_id);
        if let Some(existing) = self.proposals.get(&key) {
            if arrays_equal(&existing.block_hash, &block_hash) {
                return None;
            }
            let evidence: Vec<u8> = encode_proposal_evidence(
                height,
                &existing.block_hash,
                &block_hash,
            );
            return self.raise(
                SlashingViolation {
                    validator_id,
                    offense_type: OffenseType::Equivocation,
                    evidence,
                },
            );
        }
        self.proposals.insert(key, ObservedProposal { height, block_hash, is_valid: true });
        None
    }

    /// Record a missed attestation for `validator_id` at `current_time` (Unix seconds).
    ///
    /// Returns `Some(violation)` if the validator has now exceeded [`UNAVAILABILITY_THRESHOLD`]
    /// missed attestations within the rolling window.
    pub fn record_missed_attestation(&mut self, validator_id: PublicKey, current_time: u64) -> (r:
        Option<SlashingViolation>)
        requires
            old(self).wf(),
        ensures
            final(self).wf(),
            violation_model(r) == miss_violation(old(self)@, validator_id, current_time),
            final(self)@ == attestation_missed(old(self)@, validator_id, current_time),
    {
        let mut record: AttestationRecord = match self.attestation_records.get(&validator_id) {
            Some(found) => *found,
            None => AttestationRecord { missed_count: 0, window_start: current_time },
        };
        if current_time >= record.window_start.saturating_add(ATTESTATION_WINDOW_SECS) {
            record.missed_count = 0;
            record.window_start = current_time;
        }
        record.missed_count = record.missed_count.saturating_add(1);
        self.attestation_records.insert(validator_id, record);
        if record.missed_count > UNAVAILABILITY_THRESHOLD {
            let evidence: Vec<u8> = encode_unavailability_evidence(
                record.missed_count,
                record.window_start,
            );
            return self.raise(
                SlashingViolation {
                    validator_id,
                    offense_type: OffenseType::Unavailability,
                    evidence,
                },
            );
        }
        None
    }

    /// All violations accumulated so far.
    pub fn violations(&self) -> (r: &[SlashingViolation])
        ensures
            r@.map_values(|v: SlashingViolation| v@) == self@.violations,
    {
        self.violations.as_slice()
    }

    /// Drain and return all accumulated violations, clearing the internal log.
    pub fn drain_violations(&mut self) -> (r: Vec<SlashingViolation>)
        requires
            old(self).wf(),
        ensures
            final(self).wf(),
            r@.map_values(|v: SlashingViolation| v@) == old(self)@.violations,
            final(self)@ == (DetectorState { violations: Seq::empty(), ..old(self)@ }),
    {
        let mut drained: Vec<SlashingViolation> = Vec::new();
        core::mem::swap(&mut self.violations, &mut drained);
        assert(self@.violations =~= Seq::empty());
        drained
    }

    /// Missed-attestation count for `validator_id` in its current window.
    pub fn missed_count(&self, validator_id: &PublicKey) -> (r: u64)
        requires
            self.wf(),
        ensures
            r == if self@.misses.dom().contains(validator_id@) {
                self@.misses[validator_id@].missed_count
            } else {
                0
            },
    {
        match self.attestation_records.get(validator_id) {
            Some(record) => record.missed_count,
            None => 0,
        }
    }

    /// Number of unique `(height, validator)` proposals currently tracked.
    pub fn tracked_proposal_count(&self) -> (r: usize)
        requires
            self.wf(),
        ensures
            r == self@.proposals.dom().len(),
    {
        self.proposals.len()
    }
}

impl Default for SlashingConditionDetector {
    fn default() -> (r: Self)
        ensures
            r.wf(),
            r@ == (DetectorState {
                proposals: Map::empty(),
                misses: Map::empty(),
                violations: Seq::empty(),
            }),
    {
        Self::new()
    }
}

/// How many attestations a validator has missed in its current window.
pub open spec fn misses_of(s: DetectorState, validator_id: PublicKey) -> int {
    if s.misses.dom().contains(validator_id@) {
        s.misses[validator_id@].missed_count as int
    } else {
        0
    }
}

/// A missed attestation is reported if and only if the validator has now missed more than 100 in
/// its window of 86,400 seconds, whenever they fell; it counts on from the last one within the
/// window and starts a new window otherwise. The report goes to the end of the log, and no other
/// validator is touched.
pub proof fn law_miss_is_reported_above_the_threshold(
    s: DetectorState,
    validator_id: PublicKey,
    now: u64,
    other: PublicKey,
)
    requires
        misses_of(s, validator_id) < u64::MAX,
        s.misses.dom().contains(validator_id@) ==> s.misses[validator_id@].window_start + 86_400
            <= u64::MAX,
        other@ != validator_id@,
    ensures
        ({
            let goes_on = s.misses.dom().contains(validator_id@) && now
                < s.misses[validator_id@].window_start + 86_400;
            let t = attestation_missed(s, validator_id, now);
            let raised = miss_violation(s, validator_id, now);
            &&& goes_on ==> misses_of(t, validator_id) == misses_of(s, validator_id) + 1
            &&& goes_on ==> t.misses[validator_id@].window_start
                == s.misses[validator_id@].window_start
            &&& !goes_on ==> misses_of(t, validator_id) == 1
            &&& !goes_on ==> t.misses[validator_id@].window_start == now
            &&& raised is Some <==> misses_of(t, validator_id) > 100
            &&& raised is Some ==> {
                &&& raised->0.validator_id == validator_id
                &&& raised->0.offense_type == OffenseType::Unavailability
                &&& raised->0.evidence == le_digits(misses_of(t, validator_id) as nat, 8)
                    + le_digits(t.misses[validator_id@].window_start as nat, 8)
                &&& t.violations == s.violations.push(raised->0)
            }
            &&& raised is None ==> t.violations == s.violations
            &&& t.proposals == s.proposals
            &&& misses_of(t, other) == misses_of(s, other)
        }),
{
}

/// The detector after a validator has missed attestations at some times.
pub open spec fn all_missed(s: DetectorState, validator_id: PublicKey, times: Seq<u64>) -> DetectorState
    decreases times.len(),
{
    if times.len() == 0 {
        s
    } else {
        attestation_missed(all_missed(s, validator_id, times.drop_last()), validator_id, times.last())
    }
}

/// Of any misses within 86,400 seconds of the first, however they are spread, the 101st and every
/// later one is reported, and none before: the log grows by as many reports as there are misses
/// above 100.
pub proof fn law_misses_within_a_day_add_up(
    s: DetectorState,
    validator_id: PublicKey,
    times: Seq<u64>,
)
    requires
        !s.misses.dom().contains(validator_id@),
        times.len() > 0,
        times.len() < u64::MAX,
        times[0] + 86_400 <= u64::MAX,
        forall|i: int| 0 <= i < times.len() ==> times[0] <= #[trigger] times[i] < times[0] + 86_400,
    ensures
        ({
            let t = all_missed(s, validator_id, times);
            &&& misses_of(t, validator_id) == times.len()
            &&& t.misses[validator_id@].window_start == times[0]
            &&& t.violations.len() == s.violations.len() + (if times.len() > 100 {
                times.len() - 100
            } else {
                0
            })
            &&& times.len() > 100 ==> t.violations.last().offense_type
                == OffenseType::Unavailability && t.violations.last().validator_id
                == validator_id
        }),
    decreases times.len(),
{
    let init = times.drop_last();
    let u = all_missed(s, validator_id, init);
    if times.len() == 1 {
        assert(u == s);
    } else {
        assert(init[0] == times[0]);
        assert forall|i: int| 0 <= i < init.len() implies init[0] <= #[trigger] init[i] < init[0]
            + 86_400 by {
            assert(init[i] == times[i]);
        }
        law_misses_within_a_day_add_up(s, validator_id, init);
        assert(times[times.len() - 1] < times[0] + 86_400);
    }
}

/// An invalid proposal is always reported and never becomes the reference; the first valid one of
/// a validator at a height is silent and becomes the reference for good: whatever proposals follow,
/// every valid one is reported as equivocation exactly where its hash differs from the first.
pub proof fn law_first_valid_proposal_is_the_reference(
    s: DetectorState,
    validator_id: PublicKey,
    height: u64,
    block_hash: BlockHash,
    is_valid: bool,
    at: (u64, Seq<u8>),
)
    ensures
        ({
            let key = (height, validator_id@);
            let t = proposal_observed(s, validator_id, height, block_hash, is_valid);
            let raised = proposal_violation(s, validator_id, height, block_hash, is_valid);
            let known = s.proposals.dom().contains(key);
            &&& !is_valid ==> raised is Some && raised->0.offense_type
                == OffenseType::InvalidProposal && t.proposals == s.proposals && raised->0.evidence
                == le_digits(height as nat, 8) + block_hash@ + block_hash@
            &&& is_valid && !known ==> raised is None && t.proposals.dom().contains(key)
                && t.proposals[key].block_hash == block_hash && t.proposals[key].height == height
                && t.proposals[key].is_valid
            &&& is_valid && known ==> t.proposals == s.proposals && (raised is Some
                <==> s.proposals[key].block_hash != block_hash)
            &&& is_valid && raised is Some ==> raised->0.offense_type
                == OffenseType::Equivocation && raised->0.evidence == le_digits(height as nat, 8)
                + s.proposals[key].block_hash@ + block_hash@
            &&& raised is Some ==> raised->0.validator_id == validator_id && t.violations
                == s.violations.push(raised->0)
            &&& raised is None ==> t.violations == s.violations
            &&& t.misses == s.misses
            &&& s.proposals.dom().contains(at) ==> t.proposals.dom().contains(at)
                && t.proposals[at] == s.proposals[at]
            &&& at != key ==> t.proposals.dom().contains(at) == s.proposals.dom().contains(at)
        }),
{
}

} // verus!
