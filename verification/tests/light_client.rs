use verinode_core::cross_chain::finality_verifier::FinalityDecision;
use verinode_core::cross_chain::header_cache::RecentHeader;
use verinode_core::cross_chain::light_client::LightClientRegistry;
use verinode_core::cross_chain::types::{ChainConfig, CrossChainError};

fn config(id: &str, block_time_ms: u64) -> ChainConfig {
    // 2 hops → 1_000 ms drift budget.
    ChainConfig::new(id.into(), block_time_ms, 99, 2)
}

/// A header with `attesting_weight` above the 2/3+1 threshold of 99.
fn finalizable_header(height: u64, timestamp_ms: u64, observed_at_ms: u64) -> RecentHeader {
    RecentHeader::new(height, timestamp_ms, 99, 67, observed_at_ms)
}

#[test]
fn connect_validates_and_rejects_duplicates() {
    let mut reg = LightClientRegistry::new();
    assert_eq!(
        reg.connect(ChainConfig::new(String::new(), 2_000, 32, 1), 0),
        Err(CrossChainError::EmptyChainId)
    );
    reg.connect(config("eth", 2_000), 0).unwrap();
    assert_eq!(
        reg.connect(config("eth", 2_000), 0),
        Err(CrossChainError::ChainAlreadyConnected)
    );
    assert_eq!(reg.connected_count(), 1);
}

#[test]
fn observe_and_finalize_updates_the_finalized_tip() {
    let mut reg = LightClientRegistry::new();
    reg.connect(config("eth", 2_000), 0).unwrap();
    reg.observe_header("eth", finalizable_header(10, 1_000, 1_800))
        .unwrap();

    // No drift → finalizes immediately.
    assert_eq!(
        reg.try_finalize("eth", 2_000).unwrap(),
        FinalityDecision::Finalized
    );
    let chain = reg.chain("eth").unwrap();
    assert_eq!(chain.finalized_height(), Some(10));
    // Lag = now (2_000) - block timestamp (1_000) = 1_000 ms.
    assert_eq!(chain.finality_lag_ms(2_000), 1_000);
}

#[test]
fn finalization_withheld_under_drift_until_grace_elapses() {
    let mut reg = LightClientRegistry::new();
    reg.connect(config("eth", 2_000), 0).unwrap();
    // Force drift via excessive observed clock skew (budget = 1_000 ms).
    reg.chain_mut("eth").unwrap().sync.observe_skew(2_000);
    reg.observe_header("eth", finalizable_header(10, 1_000, 1_800))
        .unwrap();

    // grace = 1.5 * 60_000 = 90_000 ms; deadline = observed (1_800) + 90_000.
    assert_eq!(
        reg.try_finalize("eth", 50_000).unwrap(),
        FinalityDecision::AwaitingGracePeriod
    );
    assert_eq!(
        reg.try_finalize("eth", 91_800).unwrap(),
        FinalityDecision::Finalized
    );
}

#[test]
fn insufficient_weight_is_not_finalized() {
    let mut reg = LightClientRegistry::new();
    reg.connect(config("eth", 2_000), 0).unwrap();
    // 66 < 67 threshold.
    reg.observe_header("eth", RecentHeader::new(10, 1_000, 99, 66, 1_800))
        .unwrap();
    assert_eq!(
        reg.try_finalize("eth", 2_000).unwrap(),
        FinalityDecision::InsufficientWeight
    );
    assert_eq!(reg.chain("eth").unwrap().finalized_height(), None);
}

#[test]
fn gauges_report_one_entry_per_chain_sorted_by_id() {
    let mut reg = LightClientRegistry::new();
    reg.connect(config("zeta", 2_000), 0).unwrap();
    reg.connect(config("alpha", 15_000), 0).unwrap();

    let gauges = reg.finality_lag_gauges(0);
    assert_eq!(gauges.len(), 2);
    assert_eq!(gauges[0].chain_id, "alpha");
    assert_eq!(gauges[1].chain_id, "zeta");
}

#[test]
fn lag_is_zero_and_within_target_before_any_finalization() {
    let mut reg = LightClientRegistry::new();
    reg.connect(config("eth", 2_000), 0).unwrap();
    let m = reg.chain("eth").unwrap().metrics(5_000);
    assert_eq!(m.finality_lag_ms, 0);
    assert_eq!(m.finalized_height, None);
    assert!(m.within_target);
}

#[test]
fn unknown_chain_operations_report_chain_not_found() {
    let mut reg = LightClientRegistry::new();
    assert_eq!(
        reg.observe_header("ghost", finalizable_header(1, 0, 0)),
        Err(CrossChainError::ChainNotFound)
    );
    assert_eq!(
        reg.try_finalize("ghost", 0),
        Err(CrossChainError::ChainNotFound)
    );
}

#[test]
fn max_finality_lag_and_all_within_target_aggregate_across_chains() {
    let mut reg = LightClientRegistry::new();
    reg.connect(config("eth", 2_000), 0).unwrap();
    reg.connect(config("sol", 15_000), 0).unwrap();
    reg.observe_header("eth", finalizable_header(1, 1_000, 1_800))
        .unwrap();
    reg.observe_header("sol", finalizable_header(1, 1_000, 1_800))
        .unwrap();
    reg.try_finalize("eth", 2_000).unwrap();
    reg.try_finalize("sol", 5_000).unwrap();

    // eth lag @5_000 = 4_000; sol lag @5_000 = 4_000.
    assert_eq!(reg.max_finality_lag_ms(5_000), 4_000);
    assert!(reg.all_within_target(5_000));
    // Far in the future both exceed the 10 s target.
    assert!(!reg.all_within_target(100_000));
}
