use verinode_core::cross_chain::types::{ChainConfig, CrossChainError, MIN_SYNC_TIMEOUT_MS};

fn cfg(block_time_ms: u64, hops: u32) -> ChainConfig {
    ChainConfig::new("chain".into(), block_time_ms, 32, hops)
}

#[test]
fn sync_timeout_uses_three_block_times_when_above_floor() {
    // 25 s block → 3 * 25_000 = 75_000 ms, above the 60_000 floor.
    assert_eq!(cfg(25_000, 1).sync_timeout_ms(), 75_000);
}

#[test]
fn sync_timeout_is_floored_at_minimum_for_fast_chains() {
    // 2 s block → 3 * 2_000 = 6_000 ms, floored to 60_000 ms.
    assert_eq!(cfg(2_000, 1).sync_timeout_ms(), MIN_SYNC_TIMEOUT_MS);
    // 15 s block → 3 * 15_000 = 45_000 ms, still floored to 60_000 ms.
    assert_eq!(cfg(15_000, 1).sync_timeout_ms(), MIN_SYNC_TIMEOUT_MS);
}

#[test]
fn sync_timeout_saturates_instead_of_overflowing() {
    assert_eq!(cfg(u64::MAX, 1).sync_timeout_ms(), u64::MAX);
}

#[test]
fn sync_interval_is_a_quarter_of_the_block_time() {
    assert_eq!(cfg(2_000, 1).sync_interval_ms(), 500);
    assert_eq!(cfg(15_000, 1).sync_interval_ms(), 3_750);
}

#[test]
fn sync_interval_is_floored_at_one_ms() {
    assert_eq!(cfg(1, 1).sync_interval_ms(), 1);
}

#[test]
fn clock_drift_budget_scales_with_hops() {
    assert_eq!(cfg(2_000, 0).max_clock_drift_ms(), 0);
    assert_eq!(cfg(2_000, 1).max_clock_drift_ms(), 500);
    assert_eq!(cfg(2_000, 2).max_clock_drift_ms(), 1_000);
}

#[test]
fn validate_rejects_degenerate_configs() {
    assert_eq!(
        ChainConfig::new(String::new(), 2_000, 32, 1).validate(),
        Err(CrossChainError::EmptyChainId)
    );
    assert_eq!(
        ChainConfig::new("c".into(), 0, 32, 1).validate(),
        Err(CrossChainError::InvalidBlockTime)
    );
    assert_eq!(
        ChainConfig::new("c".into(), 2_000, 0, 1).validate(),
        Err(CrossChainError::InvalidCommitteeSize)
    );
}

#[test]
fn validate_accepts_a_well_formed_config() {
    assert!(cfg(2_000, 2).validate().is_ok());
}
