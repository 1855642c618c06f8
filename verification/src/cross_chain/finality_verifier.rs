//! Finality verification with sync-drift-aware grace period.
//!
//! A header is finalized once at least `2/3 + 1` of the committee weight has attested to it. When
//! the committee sync has drifted, finalization is withheld until a grace period of `1.5x` the
//! chain's sync timeout, measured from when the header was first observed, has elapsed.

use vstd::prelude::*;

use crate::arith::{capped, scaled};
use crate::cross_chain::types::{
    sync_timeout, ChainConfig, BPS_DENOMINATOR, FINALITY_THRESHOLD_DENOMINATOR,
    FINALITY_THRESHOLD_NUMERATOR, GRACE_PERIOD_MULTIPLIER_BPS,
};

verus! {

/// The result of evaluating whether a header can be finalized.
#[derive(Clone, Copy, Debug, Eq, PartialEq, Structural)]
pub enum FinalityDecision {
    /// The header is finalized.
    Finalized,
    /// The attesting committee weight is below the `2/3 + 1` threshold.
    InsufficientWeight,
    /// The weight threshold is met but sync drift was detected and the grace period has not yet
    /// elapsed.
    AwaitingGracePeriod,
}

/// Stateless finality verifier.
pub struct FinalityVerifier;

/// The weight that finalizes: two thirds of the total, rounded down, plus one.
pub open spec fn threshold_weight(total: u64) -> u64 {
    (total * FINALITY_THRESHOLD_NUMERATOR / FINALITY_THRESHOLD_DENOMINATOR as int + 1) as u64
}

/// The grace period of a chain: one and a half sync timeouts, or the longest time that can be
/// told.
pub open spec fn grace_period(c: ChainConfig) -> u64 {
    capped(sync_timeout(c) * GRACE_PERIOD_MULTIPLIER_BPS / BPS_DENOMINATOR as int)
}

/// Whether a header can be finalized.
pub open spec fn finality(
    c: ChainConfig,
    attesting: u64,
    total: u64,
    observed_ms: u64,
    now: u64,
    drift: bool,
) -> FinalityDecision {
    if attesting < threshold_weight(total) {
        FinalityDecision::InsufficientWeight
    } else if drift && now < observed_ms.saturating_add(grace_period(c)) {
        FinalityDecision::AwaitingGracePeriod
    } else {
        FinalityDecision::Finalized
    }
}

/// Two sets of attesters that both finalize overlap in more than a third of the committee.
pub proof fn law_quorums_intersect(total: u64, a: u64, b: u64)
    requires
        a >= threshold_weight(total),
        b >= threshold_weight(total),
    ensures
        3 * (a + b - total) > total,
{
}

/// More weight never hurts, and time never does: what is finalized stays so.
pub proof fn law_finality_is_monotone(
    c: ChainConfig,
    attesting: u64,
    more: u64,
    total: u64,
    observed_ms: u64,
    now: u64,
    later: u64,
    drift: bool,
)
    requires
        attesting <= more,
        now <= later,
        finality(c, attesting, total, observed_ms, now, drift) == FinalityDecision::Finalized,
    ensures
        finality(c, more, total, observed_ms, later, drift) == FinalityDecision::Finalized,
        finality(c, more, total, observed_ms, later, false) == FinalityDecision::Finalized,
{
}

impl FinalityVerifier {
    /// Minimum attesting weight required to finalize, given the total committee weight:
    /// `floor(2/3 * total) + 1`.
    pub fn finality_threshold_weight(total_committee_weight: u64) -> (r: u64)
        ensures
            r == threshold_weight(total_committee_weight),
    {
        scaled(
            total_committee_weight,
            FINALITY_THRESHOLD_NUMERATOR,
            FINALITY_THRESHOLD_DENOMINATOR,
        ) + 1
    }

    /// Returns `true` when `attesting_weight` meets the `2/3 + 1` threshold.
    pub fn meets_finality_threshold(attesting_weight: u64, total_committee_weight: u64) -> (r: bool)
        ensures
            r == (attesting_weight >= threshold_weight(total_committee_weight)),
    {
        attesting_weight >= Self::finality_threshold_weight(total_committee_weight)
    }

    /// Grace period applied before finalizing under detected drift: `1.5x` the chain's sync
    /// timeout, in milliseconds.
    pub fn grace_period_ms(config: &ChainConfig) -> (r: u64)
        ensures
            r == grace_period(*config),
    {
        scaled(config.sync_timeout_ms(), GRACE_PERIOD_MULTIPLIER_BPS, BPS_DENOMINATOR)
    }

    /// Evaluates whether a header can be finalized.
    pub fn evaluate_finality(
        config: &ChainConfig,
        attesting_weight: u64,
        total_committee_weight: u64,
        header_observed_ms: u64,
        now_ms: u64,
        sync_drift_detected: bool,
    ) -> (r: FinalityDecision)
        ensures
            r == finality(
                *config,
                attesting_weight,
                total_committee_weight,
                header_observed_ms,
                now_ms,
                sync_drift_detected,
            ),
    {
        if !Self::meets_finality_threshold(attesting_weight, total_committee_weight) {
            return FinalityDecision::InsufficientWeight;
        }
        if sync_drift_detected {
            let grace_deadline: u64 = header_observed_ms.saturating_add(
                Self::grace_period_ms(config),
            );
            if now_ms < grace_deadline {
                return FinalityDecision::AwaitingGracePeriod;
            }
        }
        FinalityDecision::Finalized
    }
}

/// The threshold is the least weight of which three times exceed two times the total.
pub proof fn law_threshold_is_the_least_above_two_thirds(total: u64)
    ensures
        3 * threshold_weight(total) > 2 * total,
        3 * (threshold_weight(total) - 1) <= 2 * total,
{
}

/// A header is finalized if and only if more than two thirds of the weight attest to it and,
/// under drift, one and a half sync timeouts have passed since it was observed.
pub proof fn law_finality_needs_weight_and_grace(
    c: ChainConfig,
    attesting: u64,
    total: u64,
    observed_ms: u64,
    now: u64,
    drift: bool,
)
    requires
        observed_ms + sync_timeout(c) + sync_timeout(c) / 2 <= u64::MAX,
    ensures
        ({
            let enough = 3 * attesting > 2 * total;
            let waited = now >= observed_ms + sync_timeout(c) + sync_timeout(c) / 2;
            let d = finality(c, attesting, total, observed_ms, now, drift);
            &&& d == FinalityDecision::Finalized <==> enough && (!drift || waited)
            &&& d == FinalityDecision::InsufficientWeight <==> !enough
            &&& d == FinalityDecision::AwaitingGracePeriod <==> enough && drift && !waited
        }),
{
    law_threshold_is_the_least_above_two_thirds(total);
}

} // verus!
