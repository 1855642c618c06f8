//! Core types and operational constants for cross-chain light-client committee synchronization.
//!
//! All timing bounds are derived per chain from its [`ChainConfig::block_time_ms`]:
//!
//! * sync timeout: `max(3 * block_time_ms, 60_000)`;
//! * sync interval: `block_time_ms / 4`;
//! * clock-drift budget: `500 ms * finality_hops`.
//!
//! All arithmetic is integer-only and saturating.

use vstd::prelude::*;

use crate::arith::{capped, greatest, max_u64, saturating_product};

verus! {

/// Maximum tolerated clock drift per relay hop, in milliseconds.
pub const MAX_CLOCK_DRIFT_MS_PER_HOP: u64 = 500;

/// Committee sync timeout is this multiple of the chain block time.
pub const SYNC_TIMEOUT_MULTIPLIER: u64 = 3;

/// Floor for the committee sync timeout, in milliseconds (one minute).
pub const MIN_SYNC_TIMEOUT_MS: u64 = 60_000;

/// The committee is polled `block_time_ms / SYNC_INTERVAL_DIVISOR` apart.
pub const SYNC_INTERVAL_DIVISOR: u64 = 4;

/// Number of recent headers retained per chain in the bounded header cache.
pub const HEADER_CACHE_CAPACITY: usize = 256;

/// Base delay for exponential sync-retry backoff, in milliseconds.
pub const SYNC_BACKOFF_BASE_MS: u64 = 1_000;

/// Ceiling for exponential sync-retry backoff, in milliseconds.
pub const SYNC_BACKOFF_CAP_MS: u64 = 30_000;

/// Grace-period multiplier applied to the sync timeout, in basis points (`1.5x`).
pub const GRACE_PERIOD_MULTIPLIER_BPS: u64 = 15_000;

/// Denominator for basis-point arithmetic (`10_000 bps = 100%`).
pub const BPS_DENOMINATOR: u64 = 10_000;

/// Numerator of the Byzantine finality threshold fraction (2/3).
pub const FINALITY_THRESHOLD_NUMERATOR: u64 = 2;

/// Denominator of the Byzantine finality threshold fraction (2/3).
pub const FINALITY_THRESHOLD_DENOMINATOR: u64 = 3;

/// Maximum acceptable end-to-end finality lag exported to dashboards, in milliseconds.
pub const MAX_ACCEPTABLE_FINALITY_LAG_MS: u64 = 10_000;

/// Maximum number of chains a single light-client registry tracks.
pub const MAX_CONNECTED_CHAINS: usize = 64;

/// Stable identifier for a connected chain / finality gadget.
pub type ChainId = String;

/// Errors returned by cross-chain light-client operations.
#[derive(Clone, Copy, Debug, Eq, PartialEq)]
pub enum CrossChainError {
    /// The chain identifier was empty.
    EmptyChainId,
    /// The configured block time was zero.
    InvalidBlockTime,
    /// The configured committee size was zero.
    InvalidCommitteeSize,
    /// The registry is already tracking the maximum number of chains.
    TooManyChains,
    /// A chain with the same identifier is already connected.
    ChainAlreadyConnected,
    /// No chain with the requested identifier is connected.
    ChainNotFound,
}

/// Per-chain configuration describing a connected finality gadget.
#[derive(Clone, Debug, Eq, PartialEq)]
pub struct ChainConfig {
    /// Stable identifier for the chain.
    pub chain_id: ChainId,
    /// Nominal block production time in milliseconds.
    pub block_time_ms: u64,
    /// Number of validators in the sync committee.
    pub committee_size: u32,
    /// Number of relay hops between this chain and the light client.
    pub finality_hops: u32,
}

/// What is wrong with a configuration, if anything: the first of these that applies.
pub open spec fn config_error(c: ChainConfig) -> Option<CrossChainError> {
    if c.chain_id@.len() == 0 {
        Some(CrossChainError::EmptyChainId)
    } else if c.block_time_ms == 0 {
        Some(CrossChainError::InvalidBlockTime)
    } else if c.committee_size == 0 {
        Some(CrossChainError::InvalidCommitteeSize)
    } else {
        None
    }
}

/// The committee sync timeout of a chain.
pub open spec fn sync_timeout(c: ChainConfig) -> u64 {
    greatest(capped(c.block_time_ms * SYNC_TIMEOUT_MULTIPLIER) as int, MIN_SYNC_TIMEOUT_MS as int) as u64
}

/// The committee sync interval of a chain.
pub open spec fn sync_interval(c: ChainConfig) -> u64 {
    greatest(c.block_time_ms as int / SYNC_INTERVAL_DIVISOR as int, 1) as u64
}

/// The clock-drift budget of a chain.
pub open spec fn drift_budget(c: ChainConfig) -> u64 {
    (MAX_CLOCK_DRIFT_MS_PER_HOP * c.finality_hops) as u64
}

/// Within a sync timeout a chain is polled at least a dozen times, unless its block time is too
/// short for the interval to be a fourth of it or too long for the timeout to be three times as
/// much.
pub proof fn law_timeout_spans_twelve_intervals(c: ChainConfig)
    requires
        SYNC_INTERVAL_DIVISOR <= c.block_time_ms,
        c.block_time_ms * SYNC_TIMEOUT_MULTIPLIER <= u64::MAX,
    ensures
        12 * sync_interval(c) <= sync_timeout(c),
{
}

impl ChainConfig {
    /// Creates a new chain configuration.
    pub fn new(
        chain_id: ChainId,
        block_time_ms: u64,
        committee_size: u32,
        finality_hops: u32,
    ) -> (r: Self)
        ensures
            r == (ChainConfig { chain_id, block_time_ms, committee_size, finality_hops }),
    {
        ChainConfig { chain_id, block_time_ms, committee_size, finality_hops }
    }

    /// Validates the configuration before it is admitted to a registry.
    pub fn validate(&self) -> (r: Result<(), CrossChainError>)
        ensures
            r == match config_error(*self) {
                Some(e) => Err(e),
                None => Ok(()),
            },
    {
        if self.chain_id.as_str().is_empty() {
            return Err(CrossChainError::EmptyChainId);
        }
        if self.block_time_ms == 0 {
            return Err(CrossChainError::InvalidBlockTime);
        }
        if self.committee_size == 0 {
            return Err(CrossChainError::InvalidCommitteeSize);
        }
        Ok(())
    }

    /// Committee sync timeout for this chain: `max(3 * block_time_ms, 60_000)`.
    pub fn sync_timeout_ms(&self) -> (r: u64)
        ensures
            r == sync_timeout(*self),
    {
        max_u64(
            saturating_product(self.block_time_ms, SYNC_TIMEOUT_MULTIPLIER),
            MIN_SYNC_TIMEOUT_MS,
        )
    }

    /// Committee sync interval for this chain: `block_time_ms / 4`, at least 1 ms.
    pub fn sync_interval_ms(&self) -> (r: u64)
        ensures
            r == sync_interval(*self),
    {
        max_u64(self.block_time_ms / SYNC_INTERVAL_DIVISOR, 1)
    }

    /// Clock-drift budget for this chain: `500 ms * finality_hops`.
    pub fn max_clock_drift_ms(&self) -> (r: u64)
        ensures
            r == drift_budget(*self),
            r == MAX_CLOCK_DRIFT_MS_PER_HOP * self.finality_hops,
    {
        MAX_CLOCK_DRIFT_MS_PER_HOP * self.finality_hops as u64
    }
}

/// The timing of a chain in plain numbers: the sync timeout is the longer of three block times and
/// a minute, four sync intervals make a block time, rounded down, and never less than a
/// millisecond each, and every hop adds half a second to the drift budget.
pub proof fn law_timing_follows_the_block_time(c: ChainConfig)
    requires
        c.block_time_ms * 3 <= u64::MAX,
    ensures
        sync_timeout(c) >= 60_000,
        sync_timeout(c) >= 3 * c.block_time_ms,
        sync_timeout(c) == 60_000 || sync_timeout(c) == 3 * c.block_time_ms,
        c.block_time_ms >= 4 ==> 4 * sync_interval(c) <= c.block_time_ms < 4 * sync_interval(c) + 4,
        c.block_time_ms < 4 ==> sync_interval(c) == 1,
        drift_budget(c) == 500 * c.finality_hops,
{
}

/// A configuration is valid if and only if it has an identifier, a block time and a committee, and
/// the first of these that is missing is the error.
pub proof fn law_configuration_needs_all_three(c: ChainConfig)
    ensures
        config_error(c) is None <==> c.chain_id@.len() > 0 && c.block_time_ms > 0
            && c.committee_size > 0,
        config_error(c) == Some(CrossChainError::EmptyChainId) <==> c.chain_id@.len() == 0,
        config_error(c) == Some(CrossChainError::InvalidBlockTime) <==> c.chain_id@.len() > 0
            && c.block_time_ms == 0,
        config_error(c) == Some(CrossChainError::InvalidCommitteeSize) <==> c.chain_id@.len() > 0
            && c.block_time_ms > 0 && c.committee_size == 0,
{
}

/// The bounds and factors of following another chain.
pub proof fn law_limits_in_numbers()
    ensures
        MAX_CLOCK_DRIFT_MS_PER_HOP == 500,
        HEADER_CACHE_CAPACITY == 256,
        SYNC_BACKOFF_BASE_MS == 1_000,
        SYNC_BACKOFF_CAP_MS == 30_000,
        GRACE_PERIOD_MULTIPLIER_BPS == 15_000,
        BPS_DENOMINATOR == 10_000,
        FINALITY_THRESHOLD_NUMERATOR == 2,
        FINALITY_THRESHOLD_DENOMINATOR == 3,
        MAX_ACCEPTABLE_FINALITY_LAG_MS == 10_000,
        MAX_CONNECTED_CHAINS == 64,
        SYNC_TIMEOUT_MULTIPLIER == 3,
        MIN_SYNC_TIMEOUT_MS == 60_000,
        SYNC_INTERVAL_DIVISOR == 4,
{
}

} // verus!
