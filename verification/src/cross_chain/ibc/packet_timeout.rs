//! IBC packet timeout-height calculation.
//!
//! A packet's `timeout_height` is a height on the destination chain:
//!
//! ```text
//! blocks         = ceil(timeout_delta_ms / mean_block_time_ms)
//! timeout_height = reference_height + blocks
//! ```
//!
//! Both the window and the block time are in milliseconds, so the quotient is a block count. The
//! time to advance `N` blocks is the sum of `N` block times, which concentrates on `N * mean`, so
//! the divisor is the mean. Rounding up errs toward the recoverable side.

use vstd::prelude::*;

use crate::cross_chain::ibc::block_time_estimator::{
    block_time, ceil_div, dispersion, estimator_ok, law_block_time_prefers_the_window, percentile,
    percentile_of, BlockTimeEstimator, EstimatorState, BLOCK_TIME_TAIL_PERCENTILE,
};
use crate::cross_chain::types::{ChainConfig, BPS_DENOMINATOR};

verus! {

/// Minimum accepted timeout window, in milliseconds (10 s).
pub const MIN_TIMEOUT_DELTA_MS: u64 = 10_000;

/// Maximum accepted timeout window, in milliseconds (300 s).
pub const MAX_TIMEOUT_DELTA_MS: u64 = 300_000;

/// Maximum packet lifetime, in destination-chain blocks.
pub const MAX_PACKET_LIFETIME_BLOCKS: u64 = 1_000;

/// Number of packets to a chain that receive the cold-start safety margin.
pub const COLD_START_PACKET_COUNT: u32 = 10;

/// Cold-start safety margin applied to the block count, in basis points (`1.5x`).
///
/// The margin raises the block count, which places the timeout height later.
pub const COLD_START_MARGIN_BPS: u64 = 15_000;

/// Errors returned when computing a packet timeout height.
///
/// Every out-of-bounds input is an error, never a clamp and never a panic.
#[derive(Clone, Copy, Debug, Eq, PartialEq)]
pub enum IbcTimeoutError {
    /// The requested window is outside `[MIN_TIMEOUT_DELTA_MS, MAX_TIMEOUT_DELTA_MS]`.
    TimeoutDeltaOutOfRange,
    /// The requested window is shorter than a single block on this chain, so it cannot be
    /// expressed at height granularity at all.
    DeltaBelowBlockGranularity,
    /// The resulting block count exceeds [`MAX_PACKET_LIFETIME_BLOCKS`].
    PacketLifetimeExceeded,
}

/// A computed packet timeout, with the estimator state that produced it.
#[derive(Clone, Copy, Debug, Eq, PartialEq)]
pub struct TimeoutEstimate {
    /// Destination-chain height at which the packet times out.
    pub timeout_height: u64,
    /// Latest known destination height the count was measured from.
    pub reference_height: u64,
    /// Block count actually applied, after any cold-start margin.
    pub block_count: u64,
    /// Block count before the cold-start margin.
    pub base_block_count: u64,
    /// Block-time estimate used as the divisor, in milliseconds.
    pub mean_block_time_ms: u64,
    /// Tail block time over the window, in milliseconds, when samples exist.
    pub p95_block_time_ms: Option<u64>,
    /// Block-time dispersion (`p95 / mean`) in basis points.
    pub dispersion_bps: u64,
    /// Whether the cold-start safety margin was applied.
    pub cold_start: bool,
}

/// The divisor of the formula: the mean block time, at least one.
pub open spec fn divisor(mean: u64) -> int {
    if mean == 0 {
        1
    } else {
        mean as int
    }
}

/// The number of blocks that a window spans, with or without the cold-start margin.
pub open spec fn blocks_spanned(mean: u64, delta: u64, cold_start: bool) -> int {
    let base = ceil_div(delta as int, divisor(mean));
    if cold_start {
        ceil_div(base * COLD_START_MARGIN_BPS, BPS_DENOMINATOR as int)
    } else {
        base
    }
}

/// The block count of a window, or what is wrong with it: the first of these that applies.
pub open spec fn count_result(mean: u64, delta: u64, cold_start: bool) -> Result<
    u64,
    IbcTimeoutError,
> {
    if !(MIN_TIMEOUT_DELTA_MS <= delta <= MAX_TIMEOUT_DELTA_MS) {
        Err(IbcTimeoutError::TimeoutDeltaOutOfRange)
    } else if delta < divisor(mean) {
        Err(IbcTimeoutError::DeltaBelowBlockGranularity)
    } else if blocks_spanned(mean, delta, cold_start) > MAX_PACKET_LIFETIME_BLOCKS {
        Err(IbcTimeoutError::PacketLifetimeExceeded)
    } else {
        Ok(blocks_spanned(mean, delta, cold_start) as u64)
    }
}

/// The chain is still within its cold-start allowance.
pub open spec fn cold(e: EstimatorState) -> bool {
    e.packets_issued < COLD_START_PACKET_COUNT
}

/// The timeout of a packet, or why there is none.
pub open spec fn timeout_result(
    e: EstimatorState,
    c: ChainConfig,
    reference_height: u64,
    delta: u64,
) -> Result<TimeoutEstimate, IbcTimeoutError> {
    let mean = block_time(e, c);
    match count_result(mean, delta, cold(e)) {
        Err(err) => Err(err),
        Ok(count) => Ok(
            TimeoutEstimate {
                timeout_height: reference_height.saturating_add(count),
                reference_height,
                block_count: count,
                base_block_count: blocks_spanned(mean, delta, false) as u64,
                mean_block_time_ms: mean,
                p95_block_time_ms: percentile(e, BLOCK_TIME_TAIL_PERCENTILE),
                dispersion_bps: dispersion(e, c),
                cold_start: cold(e),
            },
        ),
    }
}

/// The estimator after a timeout was asked for: one packet of the allowance is gone if and only
/// if a timeout was given.
pub open spec fn after_timeout(
    e: EstimatorState,
    result: Result<TimeoutEstimate, IbcTimeoutError>,
) -> EstimatorState {
    if result is Ok {
        EstimatorState { packets_issued: e.packets_issued.saturating_add(1), ..e }
    } else {
        e
    }
}

proof fn lemma_blocks(mean: u64, delta: u64)
    requires
        divisor(mean) <= delta <= MAX_TIMEOUT_DELTA_MS,
    ensures
        1 <= blocks_spanned(mean, delta, false) <= delta,
        blocks_spanned(mean, delta, false) <= blocks_spanned(mean, delta, true),
        2 * blocks_spanned(mean, delta, true) <= 3 * blocks_spanned(mean, delta, false) + 1,
        blocks_spanned(mean, delta, true) <= 2 * delta,
{
    let d = divisor(mean);
    let t = delta as int;
    let base = blocks_spanned(mean, delta, false);
    assert(1 <= (t + d - 1) / d <= t) by (nonlinear_arith)
        requires
            1 <= d <= t,
    ;
    assert(base == (t + d - 1) / d);
    let m = base * 15_000;
    assert(blocks_spanned(mean, delta, true) == (m + 9_999) / 10_000);
}

/// The timeout gives the packet at least its window, and less than one mean block more, when the
/// chain keeps to its mean block time and there is no margin.
pub proof fn law_block_count_covers_the_window(mean: u64, delta: u64)
    requires
        count_result(mean, delta, false) is Ok,
    ensures
        delta <= blocks_spanned(mean, delta, false) * divisor(mean) < delta + divisor(mean),
{
    let d = divisor(mean);
    let t = delta as int;
    let q = (t + d - 1) / d;
    vstd::arithmetic::div_mod::lemma_fundamental_div_mod(t + d - 1, d);
    assert(d * q == q * d) by (nonlinear_arith);
    vstd::arithmetic::div_mod::lemma_mod_bound(t + d - 1, d);
}

/// The cold-start margin never shortens a timeout, and lengthens it by half, rounded up.
pub proof fn law_margin_lengthens_by_half(mean: u64, delta: u64)
    requires
        count_result(mean, delta, false) is Ok,
    ensures
        blocks_spanned(mean, delta, false) <= blocks_spanned(mean, delta, true),
        3 * blocks_spanned(mean, delta, false) <= 2 * blocks_spanned(mean, delta, true) <= 3
            * blocks_spanned(mean, delta, false) + 1,
{
    lemma_blocks(mean, delta);
}

/// The margin goes to the first packets of the allowance and to no more, whatever requests are
/// rejected in between.
pub proof fn law_rejected_requests_keep_the_allowance(
    e: EstimatorState,
    c: ChainConfig,
    reference_height: u64,
    delta: u64,
)
    ensures
        timeout_result(e, c, reference_height, delta) is Err ==> after_timeout(
            e,
            timeout_result(e, c, reference_height, delta),
        ) == e,
        timeout_result(e, c, reference_height, delta) is Ok ==> cold(
            after_timeout(e, timeout_result(e, c, reference_height, delta)),
        ) == (e.packets_issued + 1 < COLD_START_PACKET_COUNT),
{
}

/// Number of destination-chain blocks a `timeout_delta_ms` window spans, given a block-time
/// estimate.
///
/// The cold-start margin is applied before the [`MAX_PACKET_LIFETIME_BLOCKS`] check.
pub fn block_count(mean_block_time_ms: u64, timeout_delta_ms: u64, cold_start: bool) -> (r: Result<
    u64,
    IbcTimeoutError,
>)
    ensures
        r == count_result(mean_block_time_ms, timeout_delta_ms, cold_start),
{
    if timeout_delta_ms < MIN_TIMEOUT_DELTA_MS || timeout_delta_ms > MAX_TIMEOUT_DELTA_MS {
        return Err(IbcTimeoutError::TimeoutDeltaOutOfRange);
    }
    let divisor: u64 = if mean_block_time_ms >= 1 {
        mean_block_time_ms
    } else {
        1
    };
    if timeout_delta_ms < divisor {
        return Err(IbcTimeoutError::DeltaBelowBlockGranularity);
    }
    proof {
        lemma_blocks(mean_block_time_ms, timeout_delta_ms);
    }
    let base: u64 = (timeout_delta_ms + (divisor - 1)) / divisor;
    let blocks: u64 = if cold_start {
        ((base as u128 * COLD_START_MARGIN_BPS as u128 + (BPS_DENOMINATOR as u128 - 1))
            / BPS_DENOMINATOR as u128) as u64
    } else {
        base
    };
    if blocks > MAX_PACKET_LIFETIME_BLOCKS {
        return Err(IbcTimeoutError::PacketLifetimeExceeded);
    }
    Ok(blocks)
}

/// Returns `true` while `estimator`'s chain is still within its cold-start allowance, i.e. fewer
/// than [`COLD_START_PACKET_COUNT`] packets have been issued against it.
pub fn in_cold_start(estimator: &BlockTimeEstimator) -> (r: bool)
    ensures
        r == cold(estimator@),
{
    estimator.packets_issued() < COLD_START_PACKET_COUNT
}

/// Computes the timeout height for one packet and consumes one packet of the destination chain's
/// cold-start allowance.
///
/// `reference_height` is the latest known height of the chain `estimator` tracks, the destination
/// chain. The allowance is consumed only on success.
pub fn compute_timeout(
    estimator: &mut BlockTimeEstimator,
    config: &ChainConfig,
    reference_height: u64,
    timeout_delta_ms: u64,
) -> (r: Result<TimeoutEstimate, IbcTimeoutError>)
    requires
        old(estimator).wf(),
    ensures
        final(estimator).wf(),
        r == timeout_result(old(estimator)@, *config, reference_height, timeout_delta_ms),
        final(estimator)@ == after_timeout(old(estimator)@, r),
{
    let mean_block_time_ms: u64 = estimator.mean_block_time_ms(config);
    let cold_start: bool = in_cold_start(estimator);
    proof {
        if divisor(mean_block_time_ms) <= timeout_delta_ms <= MAX_TIMEOUT_DELTA_MS {
            lemma_blocks(mean_block_time_ms, timeout_delta_ms);
        }
    }
    let base_count: u64 = match block_count(mean_block_time_ms, timeout_delta_ms, false) {
        Ok(count) => count,
        Err(e) => return Err(e),
    };
    let count: u64 = match block_count(mean_block_time_ms, timeout_delta_ms, cold_start) {
        Ok(count) => count,
        Err(e) => return Err(e),
    };
    let p95: Option<u64> = estimator.p95_block_time_ms();
    let spread: u64 = estimator.dispersion_bps(config);
    estimator.note_packet_issued();
    Ok(
        TimeoutEstimate {
            timeout_height: reference_height.saturating_add(count),
            reference_height,
            block_count: count,
            base_block_count: base_count,
            mean_block_time_ms,
            p95_block_time_ms: p95,
            dispersion_bps: spread,
            cold_start,
        },
    )
}

/// A window of 10 to 300 seconds that spans a block gets the least number of blocks that covers it,
/// and during cold start half as many again, rounded up; more than 1,000 blocks are refused.
pub proof fn law_least_number_of_blocks(mean: u64, delta: u64, cold_start: bool)
    requires
        mean > 0,
    ensures
        ({
            let r = count_result(mean, delta, cold_start);
            let base = count_result(mean, delta, false);
            &&& delta < 10_000 || delta > 300_000 <==> r == Err::<u64, _>(
                IbcTimeoutError::TimeoutDeltaOutOfRange,
            )
            &&& 10_000 <= delta <= 300_000 && delta < mean <==> r == Err::<u64, _>(
                IbcTimeoutError::DeltaBelowBlockGranularity,
            )
            &&& r matches Ok(n) ==> 1 <= n <= 1_000
            &&& base matches Ok(n) ==> (n - 1) * mean < delta <= n * mean
            &&& cold_start && r is Ok ==> (base matches Ok(b) && 3 * b <= 2 * r->Ok_0 <= 3 * b + 1)
        }),
{
    if 10_000 <= delta <= 300_000 && delta >= mean {
        lemma_blocks(mean, delta);
        let d = mean as int;
        let t = delta as int;
        let q = (t + d - 1) / d;
        vstd::arithmetic::div_mod::lemma_fundamental_div_mod(t + d - 1, d);
        vstd::arithmetic::div_mod::lemma_mod_bound(t + d - 1, d);
        assert(d * q == q * d) by (nonlinear_arith);
        assert((q - 1) * d == q * d - d) by (nonlinear_arith);
    }
}

/// The timeout height is the block count above the reference height, and the estimate tells what it
/// was made from; the first ten packets get the margin, and every timeout given counts as one.
pub proof fn law_timeout_is_so_many_blocks_ahead(
    e: EstimatorState,
    c: ChainConfig,
    reference_height: u64,
    delta: u64,
)
    requires
        reference_height + 1_000 <= u64::MAX,
        e.packets_issued < u32::MAX,
        estimator_ok(e),
    ensures
        ({
            let r = timeout_result(e, c, reference_height, delta);
            let mean = block_time(e, c);
            let early = e.packets_issued < 10;
            &&& r is Ok <==> count_result(mean, delta, early) is Ok
            &&& r matches Err(err) ==> count_result(mean, delta, early) == Err::<u64, _>(err)
                && after_timeout(e, r) == e
            &&& r matches Ok(t) ==> {
                &&& count_result(mean, delta, early) == Ok::<_, IbcTimeoutError>(t.block_count)
                &&& t.timeout_height == reference_height + t.block_count
                &&& t.reference_height == reference_height
                &&& t.mean_block_time_ms == mean
                &&& t.cold_start == early
                &&& t.dispersion_bps == dispersion(e, c)
                &&& e.samples.len() > 0 ==> t.p95_block_time_ms == Some(
                    percentile_of(e.samples, 95),
                )
                &&& (t.base_block_count - 1) * mean < delta <= t.base_block_count * mean
                &&& after_timeout(e, r).packets_issued == e.packets_issued + 1
                &&& after_timeout(e, r).samples == e.samples
                &&& after_timeout(e, r).ema_ms == e.ema_ms
            }
        }),
{
    let mean = block_time(e, c);
    law_block_time_prefers_the_window(e, c);
    law_least_number_of_blocks(mean, delta, true);
    law_least_number_of_blocks(mean, delta, false);
    if 10_000 <= delta <= 300_000 && delta >= mean {
        lemma_blocks(mean, delta);
    }
}

/// A timeout lies ten seconds to five minutes ahead and at most a thousand blocks; the first ten
/// packets of a channel get half as much again.
pub proof fn law_limits_in_numbers()
    ensures
        MIN_TIMEOUT_DELTA_MS == 10_000,
        MAX_TIMEOUT_DELTA_MS == 300_000,
        MAX_PACKET_LIFETIME_BLOCKS == 1_000,
        COLD_START_PACKET_COUNT == 10,
        COLD_START_MARGIN_BPS == 15_000,
{
}

/// A mean block time of zero counts as one millisecond.
pub proof fn law_zero_mean_counts_as_one(delta: u64, cold_start: bool)
    ensures
        count_result(0, delta, cold_start) == count_result(1, delta, cold_start),
        blocks_spanned(0, delta, cold_start) == blocks_spanned(1, delta, cold_start),
        blocks_spanned(1, delta, false) == delta,
{
}

/// A window in range of at least one block is granted exactly where it spans no more than a
/// thousand blocks, with the margin no more than 666 before it; a longer one is refused for its
/// lifetime.
pub proof fn law_window_spans_at_most_a_thousand_blocks(mean: u64, delta: u64)
    requires
        10_000 <= delta <= 300_000,
        0 < mean <= delta,
    ensures
        count_result(mean, delta, false) is Ok <==> delta <= 1_000 * mean,
        count_result(mean, delta, true) is Ok <==> delta <= 666 * mean,
        count_result(mean, delta, false) is Err ==> count_result(mean, delta, false) == Err::<
            u64,
            _,
        >(IbcTimeoutError::PacketLifetimeExceeded),
        count_result(mean, delta, true) is Err ==> count_result(mean, delta, true) == Err::<u64, _>(
            IbcTimeoutError::PacketLifetimeExceeded,
        ),
{
    lemma_blocks(mean, delta);
    let d = mean as int;
    let t = delta as int;
    let q = (t + d - 1) / d;
    vstd::arithmetic::div_mod::lemma_fundamental_div_mod(t + d - 1, d);
    vstd::arithmetic::div_mod::lemma_mod_bound(t + d - 1, d);
    assert(d * q == q * d) by (nonlinear_arith);
    assert((q - 1) * d == q * d - d) by (nonlinear_arith);
    assert(q <= 1_000 <==> t <= 1_000 * d) by (nonlinear_arith)
        requires
            d > 0,
            q * d - d < t <= q * d,
    ;
    assert(q <= 666 <==> t <= 666 * d) by (nonlinear_arith)
        requires
            d > 0,
            q * d - d < t <= q * d,
    ;
    assert(blocks_spanned(mean, delta, false) == q);
    assert(blocks_spanned(mean, delta, true) == (q * 15_000 + 9_999) / 10_000);
}

} // verus!
