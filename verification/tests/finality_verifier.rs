use verinode_core::cross_chain::finality_verifier::{FinalityDecision, FinalityVerifier};
use verinode_core::cross_chain::types::ChainConfig;

fn cfg(block_time_ms: u64) -> ChainConfig {
    ChainConfig::new("chain".into(), block_time_ms, 32, 2)
}

#[test]
fn threshold_is_two_thirds_plus_one() {
    // total = 99 → floor(2/3 * 99) + 1 = 66 + 1 = 67.
    assert_eq!(FinalityVerifier::finality_threshold_weight(99), 67);
    assert!(!FinalityVerifier::meets_finality_threshold(66, 99));
    assert!(FinalityVerifier::meets_finality_threshold(67, 99));
}

#[test]
fn threshold_handles_zero_total_weight() {
    // floor(2/3 * 0) + 1 = 1, so any positive weight finalizes an empty set.
    assert_eq!(FinalityVerifier::finality_threshold_weight(0), 1);
    assert!(!FinalityVerifier::meets_finality_threshold(0, 0));
}

#[test]
fn threshold_saturates_for_huge_committee_weight() {
    // Must not panic when 2 * total overflows u64.
    let _ = FinalityVerifier::finality_threshold_weight(u64::MAX);
}

#[test]
fn grace_period_is_one_and_a_half_sync_timeouts() {
    // sync_timeout floored at 60_000 ms → grace = 90_000 ms.
    assert_eq!(FinalityVerifier::grace_period_ms(&cfg(2_000)), 90_000);
    // 25 s block → sync_timeout 75_000 ms → grace = 112_500 ms.
    assert_eq!(FinalityVerifier::grace_period_ms(&cfg(25_000)), 112_500);
}

#[test]
fn insufficient_weight_is_never_finalized() {
    assert_eq!(
        FinalityVerifier::evaluate_finality(&cfg(2_000), 66, 99, 0, 1_000_000, false),
        FinalityDecision::InsufficientWeight
    );
}

#[test]
fn finalizes_immediately_without_drift() {
    assert_eq!(
        FinalityVerifier::evaluate_finality(&cfg(2_000), 67, 99, 1_000, 1_050, false),
        FinalityDecision::Finalized
    );
}

#[test]
fn withholds_finalization_during_grace_period_under_drift() {
    // Header observed at t=1_000; grace = 90_000 → deadline 91_000.
    let config = cfg(2_000);
    assert_eq!(
        FinalityVerifier::evaluate_finality(&config, 67, 99, 1_000, 90_999, true),
        FinalityDecision::AwaitingGracePeriod
    );
    assert_eq!(
        FinalityVerifier::evaluate_finality(&config, 67, 99, 1_000, 91_000, true),
        FinalityDecision::Finalized
    );
}

#[test]
fn drift_without_weight_still_reports_insufficient_weight() {
    // Weight rule takes priority over the grace-period rule.
    assert_eq!(
        FinalityVerifier::evaluate_finality(&cfg(2_000), 10, 99, 0, 0, true),
        FinalityDecision::InsufficientWeight
    );
}
