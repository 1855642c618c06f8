//! Challenge period and counter-evidence handling.
//!
//! After evidence is submitted, the accused validator has a 7-day challenge window in which to
//! submit counter-evidence. Valid counter-evidence resolves the challenge in favour of the
//! defender, and the challenger's bond is slashed. After the deadline the challenge expires and
//! slashing may proceed.

use vstd::prelude::*;

use crate::codec::{law_le_value_of_eight_bytes, le64_at, le_value, read_le64};
use crate::consensus::slashing::detector::OffenseType;
use crate::consensus::view_change::types::PublicKey;
use crate::ordered_map::OrderedMap;

verus! {

/// Challenge window duration in seconds (7 days).
pub const CHALLENGE_PERIOD_SECS: u64 = 7 * 24 * 3600;

/// Lifecycle state of a challenge record.
#[derive(Clone, Copy, Debug, Eq, PartialEq, Structural)]
pub enum ChallengeStatus {
    /// Challenge window is open; the accused may still submit counter-evidence.
    Open,
    /// The accused submitted valid counter-evidence; challenger's bond is slashed.
    DefenderWon,
    /// The window expired without successful counter-evidence; slashing may proceed.
    Expired,
}

/// A challenge record created for each valid evidence submission.
#[derive(Clone, Debug, Eq, PartialEq)]
pub struct ChallengeRecord {
    /// The sequence ID of the underlying evidence submission.
    pub submission_id: u64,
    /// The accused validator's public key.
    pub validator_id: PublicKey,
    /// The alleged offense type.
    pub offense_type: OffenseType,
    /// The challenger (evidence submitter)'s public key.
    pub challenger: PublicKey,
    /// Challenger's posted bond.
    pub challenger_bond: u64,
    /// Unix timestamp (seconds) when this challenge was opened.
    pub opened_at: u64,
    /// Deadline: `opened_at + CHALLENGE_PERIOD_SECS`.
    pub deadline: u64,
    /// Current lifecycle status.
    pub status: ChallengeStatus,
    /// Counter-evidence bytes if the defender submitted any.
    pub counter_evidence: Option<Vec<u8>>,
}

/// The outcome of processing counter-evidence.
#[derive(Clone, Copy, Debug, Eq, PartialEq)]
pub enum CounterEvidenceOutcome {
    /// Counter-evidence is valid; the defender wins and the challenger's bond should be slashed.
    DefenderWins {
        /// Amount of challenger bond to slash.
        bond_to_slash: u64,
    },
    /// Counter-evidence is invalid; the challenge remains open.
    Invalid,
}

/// Errors from challenge operations.
#[derive(Clone, Copy, Debug, Eq, PartialEq)]
pub enum ChallengeError {
    /// No challenge with the given submission ID was found.
    NotFound,
    /// The challenge window has already expired.
    WindowExpired,
    /// The challenge has already been resolved.
    AlreadyResolved,
    /// The provided counter-evidence payload failed verification.
    InvalidCounterEvidence,
}

/// Manages challenge records for all open evidence submissions.
#[derive(Clone, Debug)]
pub struct ChallengeManager {
    records: OrderedMap<u64, ChallengeRecord>,
}

/// The counter-evidence rebuts the alleged offense: for equivocation it holds a non-zero height
/// and a block hash, otherwise at least eight bytes.
pub open spec fn rebuts(offense_type: OffenseType, counter_evidence: Seq<u8>) -> bool {
    match offense_type {
        OffenseType::Equivocation => counter_evidence.len() >= 40 && le_value(
            counter_evidence.subrange(0, 8),
        ) > 0,
        OffenseType::Unavailability | OffenseType::InvalidProposal => counter_evidence.len() >= 8,
    }
}

/// The challenge is open and its deadline has passed.
pub open spec fn overdue(record: ChallengeRecord, now: u64) -> bool {
    record.status == ChallengeStatus::Open && now > record.deadline
}

/// One of the first `upto` entries is `id`, and is overdue.
spec fn overdue_among(s: Seq<(u64, ChallengeRecord)>, upto: int, id: u64, now: u64) -> bool {
    exists|j: int| 0 <= j < upto && s[j].0 == id && overdue((#[trigger] s[j]).1, now)
}

/// The record after the challenges that are overdue have been closed.
pub open spec fn after_expiry(record: ChallengeRecord, now: u64) -> ChallengeRecord {
    if overdue(record, now) {
        ChallengeRecord { status: ChallengeStatus::Expired, ..record }
    } else {
        record
    }
}

/// The records after a challenge has been opened.
pub open spec fn challenge_opened(
    records: Map<u64, ChallengeRecord>,
    submission_id: u64,
    validator_id: PublicKey,
    offense_type: OffenseType,
    challenger: PublicKey,
    challenger_bond: u64,
    now: u64,
) -> Map<u64, ChallengeRecord> {
    records.insert(
        submission_id,
        ChallengeRecord {
            submission_id,
            validator_id,
            offense_type,
            challenger,
            challenger_bond,
            opened_at: now,
            deadline: now.saturating_add(CHALLENGE_PERIOD_SECS),
            status: ChallengeStatus::Open,
            counter_evidence: None,
        },
    )
}

/// What counter-evidence against a submission is answered.
pub open spec fn counter_result(
    records: Map<u64, ChallengeRecord>,
    submission_id: u64,
    counter_evidence: Seq<u8>,
    now: u64,
) -> Result<CounterEvidenceOutcome, ChallengeError> {
    if !records.dom().contains(submission_id) {
        Err(ChallengeError::NotFound)
    } else {
        let record = records[submission_id];
        if record.status != ChallengeStatus::Open {
            Err(ChallengeError::AlreadyResolved)
        } else if now > record.deadline {
            Err(ChallengeError::WindowExpired)
        } else if !rebuts(record.offense_type, counter_evidence) {
            Ok(CounterEvidenceOutcome::Invalid)
        } else {
            Ok(CounterEvidenceOutcome::DefenderWins { bond_to_slash: record.challenger_bond })
        }
    }
}

/// The records after counter-evidence against a submission.
pub open spec fn records_after_counter(
    records: Map<u64, ChallengeRecord>,
    submission_id: u64,
    counter_evidence: Vec<u8>,
    now: u64,
) -> Map<u64, ChallengeRecord> {
    let record = records[submission_id];
    match counter_result(records, submission_id, counter_evidence@, now) {
        Ok(CounterEvidenceOutcome::DefenderWins { .. }) => records.insert(
            submission_id,
            ChallengeRecord {
                status: ChallengeStatus::DefenderWon,
                counter_evidence: Some(counter_evidence),
                ..record
            },
        ),
        Err(ChallengeError::WindowExpired) => records.insert(
            submission_id,
            ChallengeRecord { status: ChallengeStatus::Expired, ..record },
        ),
        _ => records,
    }
}

/// A challenge that has been resolved, by counter-evidence or by its deadline, stays as it is,
/// and every later counter-evidence is refused.
pub proof fn law_resolved_challenge_is_final(
    records: Map<u64, ChallengeRecord>,
    submission_id: u64,
    counter_evidence: Vec<u8>,
    now: u64,
)
    requires
        records.dom().contains(submission_id),
        records[submission_id].status != ChallengeStatus::Open,
    ensures
        counter_result(records, submission_id, counter_evidence@, now) == Err::<
            CounterEvidenceOutcome,
            _,
        >(ChallengeError::AlreadyResolved),
        records_after_counter(records, submission_id, counter_evidence, now) == records,
        after_expiry(records[submission_id], now) == records[submission_id],
{
}

/// Once the defender has won, the same challenge can neither be won again nor expire.
pub proof fn law_bond_is_slashed_once(
    records: Map<u64, ChallengeRecord>,
    submission_id: u64,
    first: Vec<u8>,
    second: Vec<u8>,
    now: u64,
    later: u64,
)
    requires
        counter_result(records, submission_id, first@, now) is Ok,
        counter_result(records, submission_id, first@, now)->Ok_0 is DefenderWins,
    ensures
        ({
            let after = records_after_counter(records, submission_id, first, now);
            &&& counter_result(after, submission_id, second@, later) == Err::<
                CounterEvidenceOutcome,
                _,
            >(ChallengeError::AlreadyResolved)
            &&& !overdue(after[submission_id], later)
        }),
{
}

impl View for ChallengeManager {
    type V = Map<u64, ChallengeRecord>;

    closed spec fn view(&self) -> Map<u64, ChallengeRecord> {
        self.records@
    }
}

impl ChallengeManager {
    /// Every record stands under the number of its submission.
    pub closed spec fn wf(&self) -> bool {
        &&& self.records.wf()
        &&& forall|id: u64| #[trigger]
            self.records@.dom().contains(id) ==> self.records@[id].submission_id == id
    }

    /// There are finitely many records, each under the number of its submission.
    pub proof fn law_in_order(&self, id: u64)
        requires
            self.wf(),
        ensures
            self@.dom().finite(),
            self@.dom().contains(id) ==> self@[id].submission_id == id,
    {
        self.records.lemma_finite();
    }

    /// Create an empty manager.
    pub fn new() -> (r: Self)
        ensures
            r.wf(),
            r@ == Map::<u64, ChallengeRecord>::empty(),
    {
        ChallengeManager { records: OrderedMap::new() }
    }

    /// Open a new challenge record when evidence is submitted.
    pub fn open(
        &mut self,
        submission_id: u64,
        validator_id: PublicKey,
        offense_type: OffenseType,
        challenger: PublicKey,
        challenger_bond: u64,
        current_time: u64,
    )
        requires
            old(self).wf(),
        ensures
            final(self).wf(),
            final(self)@ == challenge_opened(
                old(self)@,
                submission_id,
                validator_id,
                offense_type,
                challenger,
                challenger_bond,
                current_time,
            ),
    {
        let deadline: u64 = current_time.saturating_add(CHALLENGE_PERIOD_SECS);
        self.records.insert(
            submission_id,
            ChallengeRecord {
                submission_id,
                validator_id,
                offense_type,
                challenger,
                challenger_bond,
                opened_at: current_time,
                deadline,
                status: ChallengeStatus::Open,
                counter_evidence: None,
            },
        );
    }

    /// The accused validator submits counter-evidence before the deadline.
    ///
    /// Valid counter-evidence marks the record [`ChallengeStatus::DefenderWon`] and returns the
    /// challenger's bond for slashing; invalid counter-evidence leaves the challenge open. It is
    /// an error if the challenge was not found, is already resolved, or its deadline has passed.
    pub fn submit_counter_evidence(
        &mut self,
        submission_id: u64,
        counter_evidence: Vec<u8>,
        current_time: u64,
    ) -> (r: Result<CounterEvidenceOutcome, ChallengeError>)
        requires
            old(self).wf(),
        ensures
            final(self).wf(),
            r == counter_result(old(self)@, submission_id, counter_evidence@, current_time),
            final(self)@ == records_after_counter(
                old(self)@,
                submission_id,
                counter_evidence,
                current_time,
            ),
    {
        let ghost before = self.records@;
        match self.records.get_mut(&submission_id) {
            None => Err(ChallengeError::NotFound),
            Some(record) => {
                if record.status != ChallengeStatus::Open {
                    assert(before =~= before.insert(submission_id, *record));
                    return Err(ChallengeError::AlreadyResolved);
                }
                if current_time > record.deadline {
                    record.status = ChallengeStatus::Expired;
                    return Err(ChallengeError::WindowExpired);
                }
                if !Self::verify_counter_evidence(
                    record.offense_type,
                    counter_evidence.as_slice(),
                ) {
                    assert(before =~= before.insert(submission_id, *record));
                    return Ok(CounterEvidenceOutcome::Invalid);
                }
                let bond: u64 = record.challenger_bond;
                record.status = ChallengeStatus::DefenderWon;
                record.counter_evidence = Some(counter_evidence);
                Ok(CounterEvidenceOutcome::DefenderWins { bond_to_slash: bond })
            },
        }
    }

    /// Advance all open challenges whose deadline has passed to [`ChallengeStatus::Expired`].
    ///
    /// Returns the `submission_id`s of newly-expired challenges, ascending, so the caller can
    /// proceed with slashing execution.
    pub fn expire_elapsed(&mut self, current_time: u64) -> (r: Vec<u64>)
        requires
            old(self).wf(),
        ensures
            final(self).wf(),
            final(self)@.dom() == old(self)@.dom(),
            forall|id: u64| #[trigger]
                old(self)@.dom().contains(id) ==> final(self)@[id] == after_expiry(
                    old(self)@[id],
                    current_time,
                ),
            forall|id: u64| #[trigger]
                r@.contains(id) <==> old(self)@.dom().contains(id) && overdue(
                    old(self)@[id],
                    current_time,
                ),
            forall|i: int, j: int| 0 <= i < j < r@.len() ==> r@[i] < r@[j],
    {
        let ghost s = self.records.entries();
        let ghost start = *self;
        let mut expired: Vec<u64> = Vec::new();
        let n: usize = self.records.len();
        let mut i: usize = 0;
        proof {
            start.records.lemma_ascending();
        }
        while i < n
            invariant
                start.wf(),
                s == start.records.entries(),
                crate::ordered_map::ascending::<u64, ChallengeRecord>(s),
                self.wf(),
                n == s.len(),
                i <= n,
                self.records.entries().len() == n,
                forall|j: int| 0 <= j < n ==> (#[trigger] self.records.entries()[j]).0 == s[j].0,
                forall|j: int|
                    0 <= j < n ==> (#[trigger] self.records.entries()[j]).1 == if j < i {
                        after_expiry(s[j].1, current_time)
                    } else {
                        s[j].1
                    },
                forall|id: u64| #[trigger]
                    expired@.contains(id) <==> overdue_among(s, i as int, id, current_time),
                forall|a: int, b: int|
                    0 <= a < b < expired@.len() ==> expired@[a] < expired@[b],
            decreases n - i,
        {
            proof {
                start.records.lemma_at(i as int);
                self.records.lemma_at(i as int);
                assert(self.records.entries()[i as int].1 == s[i as int].1);
                assert forall|id: u64|
                    overdue_among(s, i + 1, id, current_time) <==> overdue_among(
                        s,
                        i as int,
                        id,
                        current_time,
                    ) || (s[i as int].0 == id && overdue(s[i as int].1, current_time)) by {
                    if s[i as int].0 == id && overdue(s[i as int].1, current_time) {
                        assert(overdue_among(s, i + 1, id, current_time));
                    }
                }
            }
            let ghost had = expired@;
            let record: &mut ChallengeRecord = self.records.value_at_mut(i);
            if record.status == ChallengeStatus::Open && current_time > record.deadline {
                record.status = ChallengeStatus::Expired;
                expired.push(record.submission_id);
                proof {
                    let x = s[i as int].0;
                    assert(expired@ == had.push(x));
                    assert forall|a: int, b: int|
                        0 <= a < b < expired@.len() implies expired@[a] < expired@[b] by {
                        if b == had.len() {
                            assert(had.contains(had[a]));
                            let j = choose|j: int|
                                0 <= j < i && s[j].0 == had[a] && overdue(
                                    (#[trigger] s[j]).1,
                                    current_time,
                                );
                            assert(s[j].0 < s[i as int].0);
                        }
                    }
                    assert forall|id: u64| #[trigger]
                        expired@.contains(id) <==> had.contains(id) || id == x by {
                        assert(expired@[had.len() as int] == x);
                        if had.contains(id) {
                            let k = choose|k: int| 0 <= k < had.len() && had[k] == id;
                            assert(expired@[k] == id);
                        }
                        if expired@.contains(id) && id != x {
                            let k = choose|k: int| 0 <= k < expired@.len() && expired@[k] == id;
                            assert(had[k] == id);
                        }
                    }
                }
            }
            i = i + 1;
        }
        proof {
            assert forall|id: u64|
                self.records@.dom().contains(id) <==> start.records@.dom().contains(id) by {
                if start.records@.dom().contains(id) {
                    let j = start.records.lemma_find(id);
                    self.records.lemma_at(j);
                }
                if self.records@.dom().contains(id) {
                    let j = self.records.lemma_find(id);
                    start.records.lemma_at(j);
                }
            }
            assert(self.records@.dom() =~= start.records@.dom());
            assert forall|id: u64| #[trigger]
                start.records@.dom().contains(id) implies self.records@[id] == after_expiry(
                start.records@[id],
                current_time,
            ) by {
                let j = start.records.lemma_find(id);
                self.records.lemma_at(j);
            }
            assert forall|id: u64| #[trigger]
                expired@.contains(id) <==> start@.dom().contains(id) && overdue(
                    start@[id],
                    current_time,
                ) by {
                if overdue_among(s, n as int, id, current_time) {
                    let j = choose|j: int|
                        0 <= j < n && s[j].0 == id && overdue(
                            (#[trigger] s[j]).1,
                            current_time,
                        );
                    start.records.lemma_at(j);
                }
                if start.records@.dom().contains(id) && overdue(
                    start.records@[id],
                    current_time,
                ) {
                    let j = start.records.lemma_find(id);
                    assert(overdue(s[j].1, current_time));
                }
            }
        }
        expired
    }

    /// Look up a challenge record.
    pub fn get(&self, submission_id: u64) -> (r: Option<&ChallengeRecord>)
        requires
            self.wf(),
        ensures
            r is Some <==> self@.dom().contains(submission_id),
            r matches Some(record) ==> *record == self@[submission_id],
    {
        self.records.get(&submission_id)
    }

    /// Number of records (open + resolved).
    pub fn len(&self) -> (r: usize)
        requires
            self.wf(),
        ensures
            r == self@.dom().len(),
    {
        self.records.len()
    }

    /// Whether there are no records.
    pub fn is_empty(&self) -> (r: bool)
        requires
            self.wf(),
        ensures
            r == (self@ == Map::<u64, ChallengeRecord>::empty()),
    {
        self.records.is_empty()
    }

    /// Verify counter-evidence against the alleged offense type.
    fn verify_counter_evidence(offense_type: OffenseType, counter_evidence: &[u8]) -> (r: bool)
        ensures
            r == rebuts(offense_type, counter_evidence@),
    {
        match offense_type {
            OffenseType::Equivocation => {
                if counter_evidence.len() < 40 {
                    return false;
                }
                read_le64(counter_evidence, 0) > 0
            },
            OffenseType::Unavailability | OffenseType::InvalidProposal => {
                counter_evidence.len() >= 8
            },
        }
    }
}

impl Default for ChallengeManager {
    fn default() -> (r: Self)
        ensures
            r.wf(),
            r@ == Map::<u64, ChallengeRecord>::empty(),
    {
        Self::new()
    }
}

/// Equivocation is rebutted by forty bytes whose first eight are not all zero, any other offense
/// by eight bytes.
pub proof fn law_what_rebuts(counter_evidence: Seq<u8>)
    ensures
        rebuts(OffenseType::Equivocation, counter_evidence) <==> counter_evidence.len() >= 40
            && le64_at(counter_evidence, 0) != 0,
        rebuts(OffenseType::Unavailability, counter_evidence) <==> counter_evidence.len() >= 8,
        rebuts(OffenseType::InvalidProposal, counter_evidence) <==> counter_evidence.len() >= 8,
{
    if counter_evidence.len() >= 40 {
        law_le_value_of_eight_bytes(counter_evidence, 0);
    }
}

/// A challenge is open for seven days, the last second included: until then counter-evidence that
/// rebuts the offense wins the challenger's bond, and other counter-evidence changes nothing;
/// afterwards it comes too late, and the challenge is overdue.
pub proof fn law_accused_has_a_week(
    records: Map<u64, ChallengeRecord>,
    submission_id: u64,
    validator_id: PublicKey,
    offense_type: OffenseType,
    challenger: PublicKey,
    challenger_bond: u64,
    opened_at: u64,
    counter_evidence: Vec<u8>,
    now: u64,
)
    requires
        opened_at + 604_800 <= u64::MAX,
    ensures
        ({
            let t = challenge_opened(
                records,
                submission_id,
                validator_id,
                offense_type,
                challenger,
                challenger_bond,
                opened_at,
            );
            let answer = counter_result(t, submission_id, counter_evidence@, now);
            let u = records_after_counter(t, submission_id, counter_evidence, now);
            let late = now > opened_at + 604_800;
            let rebutted = rebuts(offense_type, counter_evidence@);
            &&& answer == Err::<CounterEvidenceOutcome, _>(ChallengeError::WindowExpired) <==> late
            &&& answer == Ok::<_, ChallengeError>(
                CounterEvidenceOutcome::DefenderWins { bond_to_slash: challenger_bond },
            ) <==> !late && rebutted
            &&& answer == Ok::<_, ChallengeError>(CounterEvidenceOutcome::Invalid) <==> !late
                && !rebutted
            &&& overdue(t[submission_id], now) <==> late
            &&& u[submission_id].status == (if late {
                ChallengeStatus::Expired
            } else if rebutted {
                ChallengeStatus::DefenderWon
            } else {
                ChallengeStatus::Open
            })
            &&& u[submission_id].counter_evidence == (if !late && rebutted {
                Some(counter_evidence)
            } else {
                None
            })
            &&& u[submission_id].deadline == opened_at + 604_800
            &&& u[submission_id].opened_at == opened_at
            &&& u[submission_id].submission_id == submission_id
            &&& u[submission_id].validator_id == validator_id
            &&& u[submission_id].offense_type == offense_type
            &&& u[submission_id].challenger == challenger
            &&& u[submission_id].challenger_bond == challenger_bond
        }),
{
}

/// Opening a challenge and answering one touch no other, and an answer to a challenge that does
/// not exist finds none.
pub proof fn law_other_challenges_are_untouched(
    records: Map<u64, ChallengeRecord>,
    submission_id: u64,
    validator_id: PublicKey,
    offense_type: OffenseType,
    challenger: PublicKey,
    challenger_bond: u64,
    counter_evidence: Vec<u8>,
    now: u64,
    other: u64,
)
    requires
        other != submission_id,
    ensures
        ({
            let t = challenge_opened(
                records,
                submission_id,
                validator_id,
                offense_type,
                challenger,
                challenger_bond,
                now,
            );
            let u = records_after_counter(records, submission_id, counter_evidence, now);
            &&& t.dom().contains(other) == records.dom().contains(other)
            &&& t[other] == records[other]
            &&& u.dom() == records.dom()
            &&& u[other] == records[other]
            &&& counter_result(records, submission_id, counter_evidence@, now) == Err::<
                CounterEvidenceOutcome,
                _,
            >(ChallengeError::NotFound) <==> !records.dom().contains(submission_id)
        }),
{
    let u = records_after_counter(records, submission_id, counter_evidence, now);
    assert(u.dom() =~= records.dom());
}

/// Closing the overdue challenges changes the state of an open challenge whose deadline lies
/// behind, and nothing else.
pub proof fn law_expiry_closes_open_challenges_past_their_deadline(
    record: ChallengeRecord,
    now: u64,
)
    ensures
        ({
            let after = after_expiry(record, now);
            let due = record.status == ChallengeStatus::Open && now > record.deadline;
            &&& overdue(record, now) <==> due
            &&& due ==> after.status == ChallengeStatus::Expired
            &&& !due ==> after.status == record.status
            &&& after.submission_id == record.submission_id
            &&& after.validator_id == record.validator_id
            &&& after.offense_type == record.offense_type
            &&& after.challenger == record.challenger
            &&& after.challenger_bond == record.challenger_bond
            &&& after.opened_at == record.opened_at
            &&& after.deadline == record.deadline
            &&& after.counter_evidence == record.counter_evidence
        }),
{
}

} // verus!
