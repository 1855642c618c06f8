//! Cross-chain light-client committee synchronization across heterogeneous finality gadgets.
//!
//! Different chains finalize at different speeds. Every connected chain is kept in sync by
//! deriving all timing from that chain's own block time; see [`types`]. [`ibc`] derives packet
//! timeouts from the observed block times.

pub mod committee_sync;
pub mod finality_verifier;
pub mod header_cache;
pub mod ibc;
pub mod light_client;
pub mod types;

pub use committee_sync::{CommitteeSyncState, SyncOutcome};
pub use finality_verifier::{FinalityDecision, FinalityVerifier};
pub use header_cache::{HeaderCache, RecentHeader};
pub use light_client::{ChainFinalityMetrics, ConnectedChain, LightClientRegistry};
pub use types::{
    ChainConfig, ChainId, CrossChainError, BPS_DENOMINATOR, FINALITY_THRESHOLD_DENOMINATOR,
    FINALITY_THRESHOLD_NUMERATOR, GRACE_PERIOD_MULTIPLIER_BPS, HEADER_CACHE_CAPACITY,
    MAX_ACCEPTABLE_FINALITY_LAG_MS, MAX_CLOCK_DRIFT_MS_PER_HOP, MAX_CONNECTED_CHAINS,
    MIN_SYNC_TIMEOUT_MS, SYNC_BACKOFF_BASE_MS, SYNC_BACKOFF_CAP_MS, SYNC_INTERVAL_DIVISOR,
    SYNC_TIMEOUT_MULTIPLIER,
};
