//! Per-chain committee synchronization scheduling, retry backoff, and sync-drift detection.
//!
//! The sync cadence is derived per chain as `block_time_ms / 4`. Failed syncs back off
//! exponentially (1 s, 2 s, 4 s, ... capped at 30 s) so a struggling upstream is not hammered.

use vstd::arithmetic::power2::{lemma_pow2_unfold, pow2};
use vstd::prelude::*;

use crate::arith::{doubled_up_to, greatest, least, lemma_doubling_monotone};
use crate::cross_chain::types::{
    drift_budget, sync_interval, sync_timeout, ChainConfig, ChainId, SYNC_BACKOFF_BASE_MS,
    SYNC_BACKOFF_CAP_MS,
};

verus! {

/// Outcome of a single committee-sync attempt.
#[derive(Clone, Copy, Debug, Eq, PartialEq)]
pub enum SyncOutcome {
    /// The committee was sampled successfully.
    Success,
    /// The sync attempt exceeded the chain's sync timeout.
    Timeout,
    /// The sync attempt failed for another reason (e.g. transport error).
    Failure,
}

/// Mutable synchronization state for one connected chain.
#[derive(Clone, Debug, Eq, PartialEq)]
pub struct CommitteeSyncState {
    /// Identifier of the chain this state tracks.
    pub chain_id: ChainId,
    /// Local time of the last successful committee sync, in milliseconds.
    pub last_sync_ms: u64,
    /// Consecutive failed sync attempts since the last success.
    pub consecutive_failures: u32,
    /// Most recent observed clock skew between the chain and the light client, in milliseconds.
    pub last_observed_skew_ms: u64,
}

/// The backoff after a streak of failures: none when healthy, then the base, doubled with every
/// further failure, up to the cap.
pub open spec fn backoff(failures: u32) -> u64 {
    if failures == 0 {
        0
    } else {
        least(SYNC_BACKOFF_BASE_MS * pow2((failures - 1) as nat), SYNC_BACKOFF_CAP_MS as int) as u64
    }
}

/// When the next sync is due.
pub open spec fn next_due(s: CommitteeSyncState, c: ChainConfig) -> u64 {
    s.last_sync_ms.saturating_add(sync_interval(c)).saturating_add(backoff(s.consecutive_failures))
}

/// The committee view has drifted.
pub open spec fn drifted(s: CommitteeSyncState, c: ChainConfig, now: u64) -> bool {
    now - s.last_sync_ms > sync_timeout(c) || s.last_observed_skew_ms > drift_budget(c)
}

/// The state after a sync attempt.
pub open spec fn attempted(s: CommitteeSyncState, outcome: SyncOutcome, now: u64) -> CommitteeSyncState {
    match outcome {
        SyncOutcome::Success => CommitteeSyncState {
            last_sync_ms: now,
            consecutive_failures: 0,
            ..s
        },
        SyncOutcome::Timeout | SyncOutcome::Failure => CommitteeSyncState {
            consecutive_failures: s.consecutive_failures.saturating_add(1),
            ..s
        },
    }
}

/// A longer streak of failures never has a shorter backoff, and no backoff exceeds the cap.
pub proof fn law_backoff_grows_to_its_cap(fewer: u32, more: u32)
    requires
        fewer <= more,
    ensures
        backoff(fewer) <= backoff(more) <= SYNC_BACKOFF_CAP_MS,
{
    if fewer > 0 {
        lemma_doubling_monotone(
            SYNC_BACKOFF_BASE_MS,
            (fewer - 1) as nat,
            (more - 1) as nat,
            SYNC_BACKOFF_CAP_MS,
        );
        let p = pow2((fewer - 1) as nat) as int;
        assert(0 <= SYNC_BACKOFF_BASE_MS * p) by (nonlinear_arith)
            requires
                p >= 0,
        ;
    }
    if more > 0 {
        let q = pow2((more - 1) as nat) as int;
        assert(0 <= SYNC_BACKOFF_BASE_MS * q) by (nonlinear_arith)
            requires
                q >= 0,
        ;
    }
}

/// A failed attempt does not advance the last sync, so staleness continues to accrue; a
/// successful one ends it and the streak.
pub proof fn law_only_success_resets_staleness(s: CommitteeSyncState, outcome: SyncOutcome, now: u64)
    ensures
        outcome is Success ==> attempted(s, outcome, now).last_sync_ms == now && backoff(
            attempted(s, outcome, now).consecutive_failures,
        ) == 0,
        !(outcome is Success) ==> attempted(s, outcome, now).last_sync_ms == s.last_sync_ms
            && attempted(s, outcome, now).consecutive_failures > 0,
{
}

impl CommitteeSyncState {
    /// Creates fresh sync state for a chain, as of `now_ms`.
    pub fn new(chain_id: ChainId, now_ms: u64) -> (r: Self)
        ensures
            r == (CommitteeSyncState {
                chain_id,
                last_sync_ms: now_ms,
                consecutive_failures: 0,
                last_observed_skew_ms: 0,
            }),
    {
        CommitteeSyncState {
            chain_id,
            last_sync_ms: now_ms,
            consecutive_failures: 0,
            last_observed_skew_ms: 0,
        }
    }

    /// Local time at which the next committee sync is due: the base cadence plus the backoff.
    pub fn next_sync_due_ms(&self, config: &ChainConfig) -> (r: u64)
        ensures
            r == next_due(*self, *config),
    {
        self.last_sync_ms.saturating_add(config.sync_interval_ms()).saturating_add(
            self.backoff_delay_ms(),
        )
    }

    /// Returns `true` when `now_ms` has reached the next scheduled sync.
    pub fn due_for_sync(&self, config: &ChainConfig, now_ms: u64) -> (r: bool)
        ensures
            r == (now_ms >= next_due(*self, *config)),
    {
        now_ms >= self.next_sync_due_ms(config)
    }

    /// Exponential retry backoff for the current failure streak, in milliseconds. Zero when
    /// healthy.
    pub fn backoff_delay_ms(&self) -> (r: u64)
        ensures
            r == backoff(self.consecutive_failures),
    {
        if self.consecutive_failures == 0 {
            return 0;
        }
        doubled_up_to(
            SYNC_BACKOFF_BASE_MS,
            (self.consecutive_failures - 1) as u64,
            SYNC_BACKOFF_CAP_MS,
        )
    }

    /// Records the result of a sync attempt at `now_ms`.
    pub fn record_outcome(&mut self, outcome: SyncOutcome, now_ms: u64)
        ensures
            *final(self) == attempted(*old(self), outcome, now_ms),
    {
        match outcome {
            SyncOutcome::Success => {
                self.last_sync_ms = now_ms;
                self.consecutive_failures = 0;
            },
            SyncOutcome::Timeout | SyncOutcome::Failure => {
                self.consecutive_failures = self.consecutive_failures.saturating_add(1);
            },
        }
    }

    /// Updates the most recently observed clock skew, in milliseconds.
    pub fn observe_skew(&mut self, skew_ms: u64)
        ensures
            *final(self) == (CommitteeSyncState { last_observed_skew_ms: skew_ms, ..*old(self) }),
    {
        self.last_observed_skew_ms = skew_ms;
    }

    /// Milliseconds elapsed since the last successful sync as of `now_ms`.
    pub fn staleness_ms(&self, now_ms: u64) -> (r: u64)
        ensures
            r == now_ms.saturating_sub(self.last_sync_ms),
    {
        now_ms.saturating_sub(self.last_sync_ms)
    }

    /// Returns `true` when the light client's committee view has drifted: the time since the last
    /// successful sync exceeds the sync timeout, or the observed clock skew exceeds the drift
    /// budget.
    pub fn drift_detected(&self, config: &ChainConfig, now_ms: u64) -> (r: bool)
        ensures
            r == drifted(*self, *config, now_ms),
    {
        self.staleness_ms(now_ms) > config.sync_timeout_ms() || self.last_observed_skew_ms
            > config.max_clock_drift_ms()
    }
}

/// The backoff is none without a failure, a second after the first, and with every further failure
/// twice as long, up to half a minute.
pub proof fn law_backoff_doubles(failures: u32)
    requires
        1 <= failures < u32::MAX,
    ensures
        backoff(0) == 0,
        backoff(1) == 1_000,
        backoff((failures + 1) as u32) == least(2 * backoff(failures), 30_000),
{
    lemma_pow2_unfold(failures as nat);
    assert(pow2(0) == 1) by {
        vstd::arithmetic::power2::lemma2_to64();
    }
    vstd::arithmetic::power2::lemma_pow2_pos((failures - 1) as nat);
}

/// A chain that is healthy is due one interval after its last sync, and one that has failed the
/// backoff later.
pub proof fn law_due_after_interval_and_backoff(s: CommitteeSyncState, c: ChainConfig)
    requires
        c.block_time_ms * 3 <= u64::MAX,
        s.last_sync_ms + c.block_time_ms + 30_001 <= u64::MAX,
    ensures
        s.consecutive_failures == 0 ==> next_due(s, c) == s.last_sync_ms + greatest(
            c.block_time_ms as int / 4,
            1,
        ),
        next_due(s, c) == s.last_sync_ms + greatest(c.block_time_ms as int / 4, 1) + backoff(
            s.consecutive_failures,
        ),
{
    law_backoff_grows_to_its_cap(0, s.consecutive_failures);
}

/// The view of a committee has drifted if and only if the last success is longer ago than three
/// block times and a minute both, or the clock skew exceeds half a second per hop.
pub proof fn law_drift_by_age_or_skew(s: CommitteeSyncState, c: ChainConfig, now: u64)
    requires
        c.block_time_ms * 3 <= u64::MAX,
    ensures
        drifted(s, c, now) <==> (now > s.last_sync_ms + 3 * c.block_time_ms && now > s.last_sync_ms
            + 60_000) || s.last_observed_skew_ms > 500 * c.finality_hops,
{
}

/// A success ends the streak of failures and is the new last sync; every other outcome lengthens
/// the streak by one and leaves the last sync. Neither touches the skew.
pub proof fn law_outcomes_count(s: CommitteeSyncState, outcome: SyncOutcome, now: u64)
    requires
        s.consecutive_failures < u32::MAX,
    ensures
        ({
            let t = attempted(s, outcome, now);
            &&& t.chain_id == s.chain_id
            &&& t.last_observed_skew_ms == s.last_observed_skew_ms
            &&& outcome is Success ==> t.last_sync_ms == now && t.consecutive_failures == 0
            &&& !(outcome is Success) ==> t.last_sync_ms == s.last_sync_ms
                && t.consecutive_failures == s.consecutive_failures + 1
        }),
{
}

} // verus!
