//! IBC packet commitment timeouts across variable block-time chains.
//!
//! An IBC packet carries a `timeout_height` denominated in the destination chain's blocks.
//!
//! * [`block_time_estimator`]: the per-chain sliding window of block-time samples and the three
//!   statistics derived from it (mean, p95, EMA).
//! * [`packet_timeout`]: the timeout-height formula and the cold-start safety margin.
//! * [`packet_relayer`]: in-flight packet tracking, misestimation classification, the
//!   recalibration trigger, and the observability events.
//!
//! Samples reach the estimator from the header-sync pipeline via
//! [`crate::cross_chain::ConnectedChain::observe_header`].

pub mod block_time_estimator;
pub mod packet_relayer;
pub mod packet_timeout;
