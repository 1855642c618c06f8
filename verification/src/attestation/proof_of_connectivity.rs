//! Proof-of-connectivity challenge/response logic with epoch-scoped nonces.
//!
//! The verification sequence for an incoming challenge:
//!
//! 1. reject if the node is currently blacklisted;
//! 2. reject if the epoch is more than two behind the current one;
//! 3. reject if the challenge has exceeded its timeout;
//! 4. reject if the nonce was already seen;
//! 5. reject if the response echoes a different nonce or epoch.
//!
//! On any rejection the per-node failure counter is incremented; after
//! [`MAX_FAILED_CHALLENGES`](crate::attestation::types::MAX_FAILED_CHALLENGES) failures the node is
//! blacklisted for
//! [`BLACKLIST_DURATION_SECS`](crate::attestation::types::BLACKLIST_DURATION_SECS) seconds.

use vstd::prelude::*;

use crate::attestation::nonce_cache::{law_expiry_bounds_the_window, within_window, NonceCache};
use crate::attestation::nonce_generator::{derive_nonce, nonce_of};
use crate::attestation::types::{
    barred, clean_record, failure_fits, failure_recorded, faithful_response, outside_window,
    timed_out, Challenge, ChallengeResponse, ConnectivityError, EpochId, NodeFailureRecord, NodeId,
    RandomSeed, MAX_FAILED_CHALLENGES, REPLAY_EPOCH_WINDOW,
};
use crate::byte_order::arrays_equal;
use crate::ordered_map::{kept, OrderedMap};

verus! {

/// The proof-of-connectivity protocol state machine.
///
/// Holds the nonce deduplication cache, per-node failure records, and the map of pending
/// challenges awaiting responses.
#[derive(Debug)]
pub struct ConnectivityProtocol {
    /// Nonces seen within the replay window.
    pub cache: NonceCache,
    failures: OrderedMap<NodeId, NodeFailureRecord>,
    pending: OrderedMap<NodeId, Challenge>,
}

/// What a protocol instance knows.
pub struct ProtocolState {
    /// Nonces seen, with the epoch of each.
    pub nonces: Map<Seq<u8>, EpochId>,
    /// Failure records by node.
    pub failures: Map<Seq<u8>, NodeFailureRecord>,
    /// Pending challenges by node.
    pub pending: Map<Seq<u8>, Challenge>,
}

/// The failure record of a node.
pub open spec fn record_of(s: ProtocolState, node_id: Seq<u8>) -> NodeFailureRecord {
    if s.failures.dom().contains(node_id) {
        s.failures[node_id]
    } else {
        clean_record()
    }
}

/// What verifying a challenge and its response returns.
pub open spec fn verification(
    s: ProtocolState,
    challenge: Challenge,
    response: ChallengeResponse,
    current_epoch: EpochId,
    now: u64,
) -> Result<(), ConnectivityError> {
    if barred(record_of(s, challenge.node_id@), now) {
        Err(ConnectivityError::NodeBlacklisted)
    } else if outside_window(challenge.epoch_id, current_epoch) {
        Err(ConnectivityError::EpochTooOld)
    } else if timed_out(challenge, now) {
        Err(ConnectivityError::ChallengeExpired)
    } else if s.nonces.dom().contains(challenge.nonce@) {
        Err(ConnectivityError::NonceReused)
    } else if response.nonce != challenge.nonce || response.epoch_id != challenge.epoch_id {
        Err(ConnectivityError::ResponseMismatch)
    } else {
        Ok(())
    }
}

/// The protocol after a challenge has been issued.
pub open spec fn challenge_issued(s: ProtocolState, challenge: Challenge) -> ProtocolState {
    ProtocolState { pending: s.pending.insert(challenge.node_id@, challenge), ..s }
}

/// The protocol after an epoch has begun.
pub open spec fn epoch_advanced(s: ProtocolState, current_epoch: EpochId) -> ProtocolState {
    ProtocolState { nonces: kept(s.nonces, within_window(current_epoch)), ..s }
}

/// The node is in good standing, and the challenge is neither too old nor expired.
pub open spec fn in_good_time(
    s: ProtocolState,
    challenge: Challenge,
    current_epoch: EpochId,
    now: u64,
) -> bool {
    &&& !barred(record_of(s, challenge.node_id@), now)
    &&& !outside_window(challenge.epoch_id, current_epoch)
    &&& !timed_out(challenge, now)
}

/// The verification gets as far as to record the nonce.
pub open spec fn nonce_is_spent(result: Result<(), ConnectivityError>) -> bool {
    result is Ok || result == Err::<(), _>(ConnectivityError::ResponseMismatch)
}

/// The state after verifying a challenge and its response.
pub open spec fn verified(
    s: ProtocolState,
    challenge: Challenge,
    response: ChallengeResponse,
    current_epoch: EpochId,
    now: u64,
) -> ProtocolState {
    let node = challenge.node_id@;
    let result = verification(s, challenge, response, current_epoch, now);
    ProtocolState {
        nonces: if nonce_is_spent(result) {
            s.nonces.insert(challenge.nonce@, challenge.epoch_id)
        } else {
            s.nonces
        },
        failures: s.failures.insert(
            node,
            if result is Ok {
                NodeFailureRecord { failed_count: 0, ..record_of(s, node) }
            } else {
                failure_recorded(record_of(s, node), now)
            },
        ),
        pending: if result is Ok {
            s.pending.remove(node)
        } else {
            s.pending
        },
    }
}

/// A challenge is accepted at most once: after a verification that got as far as its nonce, be it
/// accepted or answered wrongly, every further one is refused, and as a reuse of the nonce where
/// the node is in good standing and the challenge neither too old nor expired.
pub proof fn law_no_replay_within_window(
    s: ProtocolState,
    challenge: Challenge,
    response: ChallengeResponse,
    current_epoch: EpochId,
    now: u64,
    again: ChallengeResponse,
    later_epoch: EpochId,
    later: u64,
)
    requires
        nonce_is_spent(verification(s, challenge, response, current_epoch, now)),
    ensures
        ({
            let after = verified(s, challenge, response, current_epoch, now);
            let result = verification(after, challenge, again, later_epoch, later);
            &&& result is Err
            &&& in_good_time(after, challenge, later_epoch, later) ==> result == Err::<(), _>(
                ConnectivityError::NonceReused,
            )
        }),
{
}

/// Expiring nonces does not open the door to a replay: a challenge whose nonce was recorded is
/// refused ever after, provided that nonces expire by an epoch no later than the one it is verified
/// in; and as a reuse of the nonce where the node is in good standing and the challenge neither too
/// old nor expired.
pub proof fn law_no_replay_after_expiry(
    s: ProtocolState,
    challenge: Challenge,
    response: ChallengeResponse,
    current_epoch: EpochId,
    now: u64,
    again: ChallengeResponse,
    expired_by: EpochId,
    later_epoch: EpochId,
    later: u64,
)
    requires
        nonce_is_spent(verification(s, challenge, response, current_epoch, now)),
        expired_by <= later_epoch,
    ensures
        ({
            let after = verified(s, challenge, response, current_epoch, now);
            let expired = ProtocolState {
                nonces: kept(after.nonces, within_window(expired_by)),
                ..after
            };
            let result = verification(expired, challenge, again, later_epoch, later);
            &&& result is Err
            &&& in_good_time(expired, challenge, later_epoch, later) ==> result == Err::<(), _>(
                ConnectivityError::NonceReused,
            )
        }),
{
}

/// A challenge out of the epoch window is never accepted, whatever the state: it is too old, unless
/// its node is barred anyway.
pub proof fn law_old_epochs_are_never_accepted(
    s: ProtocolState,
    challenge: Challenge,
    response: ChallengeResponse,
    current_epoch: EpochId,
    now: u64,
)
    requires
        challenge.epoch_id + REPLAY_EPOCH_WINDOW < current_epoch,
    ensures
        verification(s, challenge, response, current_epoch, now) == Err::<(), _>(
            if barred(record_of(s, challenge.node_id@), now) {
                ConnectivityError::NodeBlacklisted
            } else {
                ConnectivityError::EpochTooOld
            },
        ),
{
}

/// A fresh challenge with a faithful answer in time is accepted from a node in good standing.
pub proof fn law_fresh_faithful_answer_is_accepted(
    s: ProtocolState,
    challenge: Challenge,
    current_epoch: EpochId,
    now: u64,
)
    requires
        in_good_time(s, challenge, current_epoch, now),
        !s.nonces.dom().contains(challenge.nonce@),
    ensures
        verification(s, challenge, faithful_response(challenge), current_epoch, now) is Ok,
{
}

impl View for ConnectivityProtocol {
    type V = ProtocolState;

    closed spec fn view(&self) -> ProtocolState {
        ProtocolState {
            nonces: self.cache@,
            failures: self.failures@,
            pending: self.pending@,
        }
    }
}

impl ConnectivityProtocol {
    /// The tables are in order, no failure count has reached the limit, and every pending
    /// challenge stands under its node.
    pub closed spec fn wf(&self) -> bool {
        &&& self.cache.wf()
        &&& self.failures.wf()
        &&& self.pending.wf()
        &&& forall|n: Seq<u8>| #[trigger]
            self.failures@.dom().contains(n) ==> self.failures@[n].failed_count
                < MAX_FAILED_CHALLENGES
        &&& forall|n: Seq<u8>| #[trigger]
            self.pending@.dom().contains(n) ==> self.pending@[n].node_id@ == n
    }

    /// The failure counters stay below the limit.
    pub proof fn law_failure_counts_below_limit(&self, node_id: Seq<u8>)
        requires
            self.wf(),
        ensures
            record_of(self@, node_id).failed_count < MAX_FAILED_CHALLENGES,
    {
    }

    /// Finitely many nonces, failure records and pending challenges are kept, each challenge under
    /// its node.
    pub proof fn law_in_order(&self, node_id: Seq<u8>)
        requires
            self.wf(),
        ensures
            self@.nonces.dom().finite(),
            self@.failures.dom().finite(),
            self@.pending.dom().finite(),
            self@.pending.dom().contains(node_id) ==> self@.pending[node_id].node_id@ == node_id,
    {
        self.cache.law_finite();
        self.failures.lemma_finite();
        self.pending.lemma_finite();
    }

    /// Create a new, empty protocol instance.
    pub fn new() -> (r: Self)
        ensures
            r.wf(),
            r@ == (ProtocolState {
                nonces: Map::empty(),
                failures: Map::empty(),
                pending: Map::empty(),
            }),
    {
        ConnectivityProtocol {
            cache: NonceCache::new(),
            failures: OrderedMap::new(),
            pending: OrderedMap::new(),
        }
    }

    /// Issue a new challenge to `node_id` for `current_epoch`.
    ///
    /// Returns the [`Challenge`] to be sent to the peer, or
    /// [`ConnectivityError::NodeBlacklisted`] if the node is currently blacklisted.
    pub fn issue_challenge(
        &mut self,
        node_id: NodeId,
        current_epoch: EpochId,
        seed: &RandomSeed,
        now: u64,
    ) -> (r: Result<Challenge, ConnectivityError>)
        requires
            old(self).wf(),
        ensures
            final(self).wf(),
            barred(record_of(old(self)@, node_id@), now) ==> {
                &&& r == Err::<Challenge, _>(ConnectivityError::NodeBlacklisted)
                &&& final(self)@ == old(self)@
            },
            !barred(record_of(old(self)@, node_id@), now) ==> {
                &&& r is Ok
                &&& r->Ok_0.epoch_id == current_epoch
                &&& r->Ok_0.nonce@ == nonce_of(current_epoch, *seed, node_id)
                &&& r->Ok_0.node_id == node_id
                &&& r->Ok_0.issued_at == now
                &&& final(self)@ == challenge_issued(old(self)@, r->Ok_0)
            },
    {
        if self.is_blacklisted(&node_id, now) {
            return Err(ConnectivityError::NodeBlacklisted);
        }
        let challenge: Challenge = Challenge::new(
            current_epoch,
            derive_nonce(current_epoch, seed, &node_id),
            node_id,
            now,
        );
        self.pending.insert(node_id, challenge);
        Ok(challenge)
    }

    /// Verify a challenge/response pair.
    ///
    /// On success the nonce is recorded in the cache, the pending entry is cleared, and the
    /// failure counter is reset. On failure the failure counter is incremented (with possible
    /// blacklisting). Returns the first [`ConnectivityError`] that triggered a rejection.
    pub fn verify(
        &mut self,
        challenge: &Challenge,
        response: &ChallengeResponse,
        current_epoch: EpochId,
        now: u64,
    ) -> (r: Result<(), ConnectivityError>)
        requires
            old(self).wf(),
            verification(old(self)@, *challenge, *response, current_epoch, now) is Err
                ==> failure_fits(record_of(old(self)@, challenge.node_id@), now),
        ensures
            final(self).wf(),
            r == verification(old(self)@, *challenge, *response, current_epoch, now),
            final(self)@ == verified(old(self)@, *challenge, *response, current_epoch, now),
    {
        let node_id: NodeId = challenge.node_id;
        if self.is_blacklisted(&node_id, now) {
            self.record_failure(node_id, now);
            return Err(ConnectivityError::NodeBlacklisted);
        }
        if current_epoch.saturating_sub(challenge.epoch_id) > REPLAY_EPOCH_WINDOW {
            self.record_failure(node_id, now);
            return Err(ConnectivityError::EpochTooOld);
        }
        if challenge.is_expired(now) {
            self.record_failure(node_id, now);
            return Err(ConnectivityError::ChallengeExpired);
        }
        if !self.cache.insert(challenge.nonce, challenge.epoch_id) {
            self.record_failure(node_id, now);
            return Err(ConnectivityError::NonceReused);
        }
        if !arrays_equal(&response.nonce, &challenge.nonce) || response.epoch_id
            != challenge.epoch_id {
            self.record_failure(node_id, now);
            return Err(ConnectivityError::ResponseMismatch);
        }
        self.pending.remove(&node_id);
        let mut record: NodeFailureRecord = self.failure_record(&node_id);
        record.record_success();
        self.failures.insert(node_id, record);
        Ok(())
    }

    /// Advance the epoch, expiring stale nonces from the cache.
    pub fn advance_epoch(&mut self, current_epoch: EpochId)
        requires
            old(self).wf(),
        ensures
            final(self).wf(),
            final(self)@ == epoch_advanced(old(self)@, current_epoch),
    {
        self.cache.expire(current_epoch);
    }

    /// Returns `true` if `node_id` is currently blacklisted.
    pub fn is_blacklisted(&self, node_id: &NodeId, now: u64) -> (r: bool)
        requires
            self.wf(),
        ensures
            r == barred(record_of(self@, node_id@), now),
    {
        self.failure_record(node_id).is_blacklisted(now)
    }

    /// Retrieve the pending challenge for `node_id`, if any.
    pub fn pending_challenge(&self, node_id: &NodeId) -> (r: Option<&Challenge>)
        requires
            self.wf(),
        ensures
            r is Some <==> self@.pending.dom().contains(node_id@),
            r matches Some(c) ==> *c == self@.pending[node_id@],
    {
        self.pending.get(node_id)
    }

    /// The failure record of a node.
    fn failure_record(&self, node_id: &NodeId) -> (r: NodeFailureRecord)
        requires
            self.failures.wf(),
        ensures
            r == record_of(self@, node_id@),
    {
        match self.failures.get(node_id) {
            Some(record) => *record,
            None => NodeFailureRecord { failed_count: 0, blacklisted_until: 0 },
        }
    }

    /// Counts a failure of a node.
    fn record_failure(&mut self, node_id: NodeId, now: u64)
        requires
            old(self).wf(),
            failure_fits(record_of(old(self)@, node_id@), now),
        ensures
            final(self).wf(),
            final(self)@ == (ProtocolState {
                failures: old(self)@.failures.insert(
                    node_id@,
                    failure_recorded(record_of(old(self)@, node_id@), now),
                ),
                ..old(self)@
            }),
    {
        let mut record: NodeFailureRecord = self.failure_record(&node_id);
        record.record_failure(now);
        self.failures.insert(node_id, record);
    }
}

impl Default for ConnectivityProtocol {
    fn default() -> (r: Self)
        ensures
            r.wf(),
            r@ == (ProtocolState {
                nonces: Map::empty(),
                failures: Map::empty(),
                pending: Map::empty(),
            }),
    {
        Self::new()
    }
}

/// A challenge that is issued awaits the answer of its node; nothing else changes. A new epoch
/// forgets the nonces seen more than two epochs ago, and nothing else.
pub proof fn law_issued_challenge_is_pending(
    s: ProtocolState,
    challenge: Challenge,
    current_epoch: EpochId,
    other: Seq<u8>,
    nonce: Seq<u8>,
)
    requires
        other != challenge.node_id@,
    ensures
        ({
            let t = challenge_issued(s, challenge);
            let u = epoch_advanced(s, current_epoch);
            &&& t.pending.dom().contains(challenge.node_id@)
            &&& t.pending[challenge.node_id@] == challenge
            &&& t.pending.dom().contains(other) == s.pending.dom().contains(other)
            &&& t.pending[other] == s.pending[other]
            &&& t.nonces == s.nonces
            &&& t.failures == s.failures
            &&& u.nonces.dom().contains(nonce) <==> s.nonces.dom().contains(nonce) && current_epoch
                <= s.nonces[nonce] + 2
            &&& u.failures == s.failures
            &&& u.pending == s.pending
        }),
{
    law_expiry_bounds_the_window(s.nonces, current_epoch, nonce);
}

/// An answer is accepted exactly where the node is not barred, the epoch lies at most two back, at
/// most five seconds have passed, the nonce is new, and nonce and epoch are those of the
/// challenge. Of several faults the first in this order is reported.
pub proof fn law_verification_in_numbers(
    s: ProtocolState,
    challenge: Challenge,
    response: ChallengeResponse,
    current_epoch: EpochId,
    now: u64,
)
    ensures
        ({
            let answer = verification(s, challenge, response, current_epoch, now);
            let node = challenge.node_id@;
            let free = !s.failures.dom().contains(node) || now
                >= s.failures[node].blacklisted_until;
            let recent = current_epoch <= challenge.epoch_id + 2;
            let prompt = now <= challenge.issued_at + 5;
            let fresh = !s.nonces.dom().contains(challenge.nonce@);
            let same = response.nonce == challenge.nonce && response.epoch_id
                == challenge.epoch_id;
            &&& answer is Ok <==> free && recent && prompt && fresh && same
            &&& answer == Err::<(), _>(ConnectivityError::NodeBlacklisted) <==> !free
            &&& answer == Err::<(), _>(ConnectivityError::EpochTooOld) <==> free && !recent
            &&& answer == Err::<(), _>(ConnectivityError::ChallengeExpired) <==> free && recent
                && !prompt
            &&& answer == Err::<(), _>(ConnectivityError::NonceReused) <==> free && recent && prompt
                && !fresh
            &&& answer == Err::<(), _>(ConnectivityError::ResponseMismatch) <==> free && recent
                && prompt && fresh && !same
        }),
{
}

/// An accepted answer spends its nonce, clears the node's failures and ends the challenge; a
/// mismatch spends the nonce and counts as a failure; any other refusal only counts as one. No
/// other node and no other nonce is touched.
pub proof fn law_verification_leaves_its_mark(
    s: ProtocolState,
    challenge: Challenge,
    response: ChallengeResponse,
    current_epoch: EpochId,
    now: u64,
    other: Seq<u8>,
    nonce: Seq<u8>,
)
    requires
        other != challenge.node_id@,
        nonce != challenge.nonce@,
        record_of(s, challenge.node_id@).failed_count <= 2,
        now + 60 <= u64::MAX,
    ensures
        ({
            let answer = verification(s, challenge, response, current_epoch, now);
            let t = verified(s, challenge, response, current_epoch, now);
            let node = challenge.node_id@;
            let count = record_of(s, node).failed_count;
            let r = record_of(t, node);
            &&& t.failures.dom().contains(node)
            &&& answer is Ok ==> {
                &&& t.nonces.dom().contains(challenge.nonce@)
                &&& t.nonces[challenge.nonce@] == challenge.epoch_id
                &&& r.failed_count == 0
                &&& r.blacklisted_until == record_of(s, node).blacklisted_until
                &&& !t.pending.dom().contains(node)
            }
            &&& answer == Err::<(), _>(ConnectivityError::ResponseMismatch)
                ==> t.nonces.dom().contains(challenge.nonce@) && t.nonces[challenge.nonce@]
                == challenge.epoch_id
            &&& answer is Err && answer != Err::<(), _>(ConnectivityError::ResponseMismatch)
                ==> t.nonces == s.nonces
            &&& answer is Err && count < 2 ==> r.failed_count == count + 1 && r.blacklisted_until
                == record_of(s, node).blacklisted_until
            &&& answer is Err && count == 2 ==> r.failed_count == 0 && r.blacklisted_until == now
                + 60
            &&& answer is Err ==> t.pending == s.pending
            &&& record_of(t, other) == record_of(s, other)
            &&& t.pending.dom().contains(other) == s.pending.dom().contains(other)
            &&& t.pending[other] == s.pending[other]
            &&& t.nonces.dom().contains(nonce) == s.nonces.dom().contains(nonce)
            &&& t.nonces[nonce] == s.nonces[nonce]
        }),
{
}

} // verus!
