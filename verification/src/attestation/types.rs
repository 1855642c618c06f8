//! Core data structures for the proof-of-connectivity challenge/response protocol.
//!
//! A challenge is bound to the epoch in which it was generated. The verifier rejects any
//! challenge whose epoch is more than two behind the current epoch, and the nonce cache expires
//! entries on the same boundary.

use vstd::prelude::*;

use crate::codec::{le_digits, u64_to_le};

verus! {

/// Epoch identifier: a monotonically incrementing `u32`, advanced every `EPOCH_DURATION_SECS`
/// seconds by the connectivity scheduler.
pub type EpochId = u32;

/// A node identifier (32 bytes).
pub type NodeId = [u8; 32];

/// A 256-bit nonce produced by the nonce generator.
pub type Nonce = [u8; 32];

/// Seconds within which a challenge must be answered.
pub const CHALLENGE_TIMEOUT_SECS: u64 = 5;

/// Seconds that an epoch lasts.
pub const EPOCH_DURATION_SECS: u64 = 30;

/// Nonces from more than this many epochs ago are unconditionally rejected.
pub const REPLAY_EPOCH_WINDOW: u32 = 2;

/// Maximum failed challenges before a node is blacklisted.
pub const MAX_FAILED_CHALLENGES: u32 = 3;

/// Duration (seconds) a node is blacklisted after exceeding the failure limit.
pub const BLACKLIST_DURATION_SECS: u64 = 60;

/// A proof-of-connectivity challenge issued to a peer node.
#[derive(Clone, Copy, Debug, PartialEq, Eq)]
pub struct Challenge {
    /// The epoch in which this challenge was generated.
    pub epoch_id: EpochId,
    /// The 256-bit epoch-scoped nonce.
    pub nonce: Nonce,
    /// Identifier of the challenged node.
    pub node_id: NodeId,
    /// Unix timestamp (seconds) at which the challenge was issued.
    pub issued_at: u64,
}

/// The epoch is more than the replay window behind the current one.
pub open spec fn outside_window(epoch_id: EpochId, current_epoch: EpochId) -> bool {
    current_epoch - epoch_id > REPLAY_EPOCH_WINDOW
}

/// The challenge has exceeded the per-round timeout.
pub open spec fn timed_out(challenge: Challenge, now: u64) -> bool {
    now - challenge.issued_at > CHALLENGE_TIMEOUT_SECS
}

impl Challenge {
    /// Construct a new challenge.
    pub fn new(epoch_id: EpochId, nonce: Nonce, node_id: NodeId, issued_at: u64) -> (r: Self)
        ensures
            r == (Challenge { epoch_id, nonce, node_id, issued_at }),
    {
        Challenge { epoch_id, nonce, node_id, issued_at }
    }

    /// Returns `true` if this challenge has exceeded the per-round timeout.
    pub fn is_expired(&self, now: u64) -> (r: bool)
        ensures
            r == timed_out(*self, now),
    {
        now.saturating_sub(self.issued_at) > CHALLENGE_TIMEOUT_SECS
    }
}

/// A response to a [`Challenge`] returned by the challenged node.
#[derive(Clone, Copy, Debug, PartialEq, Eq)]
pub struct ChallengeResponse {
    /// Must echo the epoch_id of the original challenge.
    pub epoch_id: EpochId,
    /// Must echo the nonce of the original challenge.
    pub nonce: Nonce,
    /// Identifier of the responding node.
    pub node_id: NodeId,
}

/// The response to a challenge that echoes it faithfully.
pub open spec fn faithful_response(challenge: Challenge) -> ChallengeResponse {
    ChallengeResponse {
        epoch_id: challenge.epoch_id,
        nonce: challenge.nonce,
        node_id: challenge.node_id,
    }
}

impl ChallengeResponse {
    /// Construct a response from an original challenge.
    pub fn from_challenge(challenge: &Challenge) -> (r: Self)
        ensures
            r == faithful_response(*challenge),
    {
        ChallengeResponse {
            epoch_id: challenge.epoch_id,
            nonce: challenge.nonce,
            node_id: challenge.node_id,
        }
    }
}

/// Errors produced by challenge verification.
#[derive(Clone, Copy, Debug, PartialEq, Eq)]
pub enum ConnectivityError {
    /// The challenge epoch is more than [`REPLAY_EPOCH_WINDOW`] behind the current epoch:
    /// unconditional replay rejection.
    EpochTooOld,
    /// The nonce was already seen in the current replay window.
    NonceReused,
    /// The challenge has exceeded its per-round timeout.
    ChallengeExpired,
    /// The response does not match the pending challenge.
    ResponseMismatch,
    /// The node has exceeded [`MAX_FAILED_CHALLENGES`] and is blacklisted.
    NodeBlacklisted,
}

/// Per-node failure tracking used by the proof-of-connectivity protocol.
#[derive(Clone, Copy, Debug)]
pub struct NodeFailureRecord {
    /// Number of consecutive failed challenges.
    pub failed_count: u32,
    /// Unix timestamp when the blacklist expires (0 = not blacklisted).
    pub blacklisted_until: u64,
}

/// The record of a node without failures.
pub open spec fn clean_record() -> NodeFailureRecord {
    NodeFailureRecord { failed_count: 0, blacklisted_until: 0 }
}

/// One more failure can be recorded: the counter and, where the limit is reached, the end of the
/// blacklisting fit.
pub open spec fn failure_fits(r: NodeFailureRecord, now: u64) -> bool {
    &&& r.failed_count < u32::MAX
    &&& r.failed_count + 1 >= MAX_FAILED_CHALLENGES ==> now + BLACKLIST_DURATION_SECS <= u64::MAX
}

/// The record after one more failure.
pub open spec fn failure_recorded(r: NodeFailureRecord, now: u64) -> NodeFailureRecord {
    if r.failed_count + 1 >= MAX_FAILED_CHALLENGES {
        NodeFailureRecord {
            failed_count: 0,
            blacklisted_until: (now + BLACKLIST_DURATION_SECS) as u64,
        }
    } else {
        NodeFailureRecord { failed_count: (r.failed_count + 1) as u32, ..r }
    }
}

/// The record after a challenge that was met.
pub open spec fn success_recorded(r: NodeFailureRecord) -> NodeFailureRecord {
    NodeFailureRecord { failed_count: 0, ..r }
}

/// The node is barred at `now`.
pub open spec fn barred(r: NodeFailureRecord, now: u64) -> bool {
    r.blacklisted_until > now
}

/// The failure limit, reached without a success in between, bars a node for the full duration
/// and no longer.
pub proof fn law_limit_of_failures_bars(t1: u64, t2: u64, t3: u64, at: u64)
    requires
        t3 + BLACKLIST_DURATION_SECS <= u64::MAX,
    ensures
        ({
            let r = failure_recorded(failure_recorded(failure_recorded(clean_record(), t1), t2), t3);
            barred(r, at) <==> at < t3 + BLACKLIST_DURATION_SECS
        }),
{
}

impl Default for NodeFailureRecord {
    fn default() -> (r: Self)
        ensures
            r == clean_record(),
    {
        NodeFailureRecord { failed_count: 0, blacklisted_until: 0 }
    }
}

impl NodeFailureRecord {
    /// Returns `true` if the node is currently blacklisted.
    pub fn is_blacklisted(&self, now: u64) -> (r: bool)
        ensures
            r == barred(*self, now),
    {
        self.blacklisted_until > now
    }

    /// Record a failed challenge. Applies blacklisting when the failure count reaches
    /// [`MAX_FAILED_CHALLENGES`].
    pub fn record_failure(&mut self, now: u64)
        requires
            failure_fits(*old(self), now),
        ensures
            *final(self) == failure_recorded(*old(self), now),
    {
        self.failed_count = self.failed_count + 1;
        if self.failed_count >= MAX_FAILED_CHALLENGES {
            self.blacklisted_until = now + BLACKLIST_DURATION_SECS;
            self.failed_count = 0;
        }
    }

    /// Reset on a successful challenge.
    pub fn record_success(&mut self)
        ensures
            *final(self) == success_recorded(*old(self)),
    {
        self.failed_count = 0;
    }
}

/// A random 32-byte seed used by the nonce generator.
#[derive(Clone, Copy, Debug, PartialEq, Eq)]
pub struct RandomSeed(pub [u8; 32]);

impl RandomSeed {
    /// Construct a seed from raw bytes.
    pub fn from_bytes(bytes: [u8; 32]) -> (r: Self)
        ensures
            r == RandomSeed(bytes),
    {
        RandomSeed(bytes)
    }

    /// A deterministic seed derived from a counter: its eight bytes, least significant first,
    /// then zeros.
    pub fn from_counter(n: u64) -> (r: Self)
        ensures
            r.0@ == le_digits(n as nat, 8) + Seq::new(24, |i: int| 0u8),
    {
        let digits: [u8; 8] = u64_to_le(n);
        let mut bytes: [u8; 32] = [0u8; 32];
        let mut i: usize = 0;
        while i < 8
            invariant
                i <= 8,
                forall|j: int| 0 <= j < i ==> bytes@[j] == digits@[j],
                forall|j: int| i <= j < 32 ==> bytes@[j] == 0u8,
            decreases 8 - i,
        {
            bytes[i] = digits[i];
            i = i + 1;
        }
        assert(bytes@ =~= digits@ + Seq::new(24, |i: int| 0u8));
        RandomSeed(bytes)
    }
}

/// A challenge may be answered for five seconds, and its epoch counts for two more epochs.
pub proof fn law_challenge_lasts_five_seconds_and_two_epochs(
    challenge: Challenge,
    now: u64,
    current_epoch: EpochId,
)
    ensures
        timed_out(challenge, now) <==> now > challenge.issued_at + 5,
        outside_window(challenge.epoch_id, current_epoch) <==> current_epoch > challenge.epoch_id
            + 2,
{
}

/// The third failure in a row bars a node for a minute and starts the count over; an earlier one
/// only counts. A success clears the count and lifts no ban.
pub proof fn law_failures_count_up_to_a_ban(r: NodeFailureRecord, now: u64)
    requires
        r.failed_count <= 2,
        now + 60 <= u64::MAX,
    ensures
        ({
            let t = failure_recorded(r, now);
            let u = success_recorded(r);
            &&& failure_fits(r, now)
            &&& barred(r, now) <==> now < r.blacklisted_until
            &&& r.failed_count < 2 ==> t.failed_count == r.failed_count + 1 && t.blacklisted_until
                == r.blacklisted_until
            &&& r.failed_count == 2 ==> t.failed_count == 0 && t.blacklisted_until == now + 60
            &&& u.failed_count == 0
            &&& u.blacklisted_until == r.blacklisted_until
            &&& clean_record().failed_count == 0
            &&& !barred(clean_record(), now)
        }),
{
}

/// A faithful answer gives back the epoch, the nonce and the node of its challenge.
pub proof fn law_faithful_answer_repeats_the_challenge(challenge: Challenge)
    ensures
        faithful_response(challenge).epoch_id == challenge.epoch_id,
        faithful_response(challenge).nonce == challenge.nonce,
        faithful_response(challenge).node_id == challenge.node_id,
{
}

/// An epoch lasts thirty seconds.
pub proof fn law_epoch_in_seconds()
    ensures
        EPOCH_DURATION_SECS == 30,
{
}

} // verus!
