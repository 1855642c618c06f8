use verinode_core::cross_chain::committee_sync::{CommitteeSyncState, SyncOutcome};
use verinode_core::cross_chain::finality_verifier::{FinalityDecision, FinalityVerifier};
use verinode_core::cross_chain::header_cache::{HeaderCache, RecentHeader};
use verinode_core::cross_chain::ibc::block_time_estimator::BlockTimeEstimator;
use verinode_core::cross_chain::ibc::packet_relayer::{
    IbcRelayerError, IbcRelayerEvent, PacketId, PacketOutcome, PacketRelayer, TimeoutMiss,
    MISESTIMATION_WINDOW_PACKETS,
};
use verinode_core::cross_chain::ibc::packet_timeout::{
    block_count, compute_timeout, in_cold_start, IbcTimeoutError, COLD_START_PACKET_COUNT,
};
use verinode_core::cross_chain::light_client::{ConnectedChain, LightClientRegistry};
use verinode_core::cross_chain::types::{ChainConfig, CrossChainError, MAX_CONNECTED_CHAINS};

fn config(block_time_ms: u64) -> ChainConfig {
    ChainConfig::new("dest".into(), block_time_ms, 32, 2)
}

fn packet(sequence: u64) -> PacketId {
    PacketId::new("channel-0".into(), sequence)
}

fn settled_chain() -> ConnectedChain {
    let mut chain = ConnectedChain::new(config(2_000), 0);
    for _ in 0..100 {
        chain.block_time.record_block_time_ms(2_000);
    }
    for _ in 0..COLD_START_PACKET_COUNT {
        chain.block_time.note_packet_issued();
    }
    chain
}

#[test]
fn configuration_is_validated_field_by_field() {
    assert_eq!(config(2_000).validate(), Ok(()));
    assert_eq!(
        ChainConfig::new(String::new(), 1, 1, 1).validate(),
        Err(CrossChainError::EmptyChainId)
    );
    assert_eq!(
        ChainConfig::new("a".into(), 0, 1, 1).validate(),
        Err(CrossChainError::InvalidBlockTime)
    );
    assert_eq!(
        ChainConfig::new("a".into(), 1, 0, 1).validate(),
        Err(CrossChainError::InvalidCommitteeSize)
    );
}

#[test]
fn timeout_spans_twelve_sync_intervals() {
    let slow = config(40_000);
    assert_eq!(slow.sync_timeout_ms(), 120_000);
    assert_eq!(slow.sync_interval_ms(), 10_000);
    assert_eq!(slow.sync_timeout_ms(), 12 * slow.sync_interval_ms());
    assert_eq!(config(2_000).sync_timeout_ms(), 60_000);
    assert_eq!(config(2_000).max_clock_drift_ms(), 1_000);
    assert_eq!(
        ChainConfig::new("a".into(), u64::MAX, 1, 1).sync_timeout_ms(),
        u64::MAX
    );
}

#[test]
fn header_cache_replaces_marks_and_finds() {
    let mut cache = HeaderCache::new();
    cache.insert(RecentHeader::new(5, 50, 9, 7, 51));
    cache.insert(RecentHeader::new(3, 30, 9, 7, 31));
    assert_eq!(cache.latest().unwrap().height, 3);
    assert!(cache.mark_finalized(3));
    assert!(cache.mark_finalized(5));
    assert!(!cache.mark_finalized(4));
    // The highest finalized height counts, not the order of arrival.
    assert_eq!(cache.latest_finalized().unwrap().height, 5);
    cache.insert(RecentHeader::new(5, 55, 9, 8, 56));
    assert_eq!(cache.len(), 2);
    assert_eq!(cache.get(5).unwrap().timestamp_ms, 55);
    assert_eq!(cache.latest_finalized().unwrap().height, 3);
    assert_eq!(cache.capacity(), 256);
}

#[test]
fn only_success_resets_staleness() {
    let mut sync = CommitteeSyncState::new("dest".into(), 1_000);
    sync.record_outcome(SyncOutcome::Failure, 5_000);
    sync.record_outcome(SyncOutcome::Timeout, 6_000);
    assert_eq!(sync.staleness_ms(7_000), 6_000);
    assert_eq!(sync.backoff_delay_ms(), 2_000);
    assert_eq!(sync.next_sync_due_ms(&config(2_000)), 1_000 + 500 + 2_000);
    assert!(!sync.due_for_sync(&config(2_000), 3_499));
    assert!(sync.due_for_sync(&config(2_000), 3_500));
    sync.record_outcome(SyncOutcome::Success, 8_000);
    assert_eq!(sync.staleness_ms(8_000), 0);
    assert_eq!(sync.staleness_ms(7_000), 0);
    assert_eq!(sync.backoff_delay_ms(), 0);
    assert!(!sync.drift_detected(&config(2_000), 68_000));
    assert!(sync.drift_detected(&config(2_000), 68_001));
    sync.observe_skew(1_000);
    assert!(!sync.drift_detected(&config(2_000), 8_000));
    sync.observe_skew(1_001);
    assert!(sync.drift_detected(&config(2_000), 8_000));
}

#[test]
fn two_finality_quorums_share_weight() {
    for total in [3u64, 9, 10, 11, 100, 1_001] {
        let threshold = FinalityVerifier::finality_threshold_weight(total);
        assert_eq!(threshold, total * 2 / 3 + 1);
        assert!(2 * threshold > total);
    }
    assert_eq!(
        FinalityVerifier::finality_threshold_weight(u64::MAX),
        12_297_829_382_473_034_411
    );
    assert!(!FinalityVerifier::meets_finality_threshold(
        12_297_829_382_473_034_410,
        u64::MAX
    ));
}

#[test]
fn drift_delays_finality_by_the_grace_period() {
    let c = config(2_000);
    let decide = |weight: u64, now: u64, drift: bool| {
        FinalityVerifier::evaluate_finality(&c, weight, 99, 1_000, now, drift)
    };
    assert_eq!(decide(66, u64::MAX, false), FinalityDecision::InsufficientWeight);
    assert_eq!(decide(67, 1_000, false), FinalityDecision::Finalized);
    assert_eq!(decide(67, 90_999, true), FinalityDecision::AwaitingGracePeriod);
    assert_eq!(decide(67, 91_000, true), FinalityDecision::Finalized);
}

#[test]
fn grace_period_of_a_very_slow_chain_is_exact() {
    let slow = config(4_000_000_000_000_000_000);
    assert_eq!(slow.sync_timeout_ms(), 12_000_000_000_000_000_000);
    assert_eq!(
        FinalityVerifier::grace_period_ms(&slow),
        18_000_000_000_000_000_000
    );
    assert_eq!(FinalityVerifier::grace_period_ms(&config(u64::MAX)), u64::MAX);
}

#[test]
fn registry_is_bounded_and_reports_per_chain() {
    let mut registry = LightClientRegistry::default();
    for i in 0..MAX_CONNECTED_CHAINS {
        let id = format!("chain-{i}");
        registry.connect(ChainConfig::new(id, 2_000, 32, 1), 0).unwrap();
    }
    assert_eq!(
        registry.connect(ChainConfig::new("more".into(), 2_000, 32, 1), 0),
        Err(CrossChainError::TooManyChains)
    );
    assert_eq!(registry.connected_count(), MAX_CONNECTED_CHAINS);
    assert_eq!(
        registry.observe_header("more", RecentHeader::new(1, 1, 1, 1, 1)),
        Err(CrossChainError::ChainNotFound)
    );
    assert_eq!(
        registry.try_finalize("more", 1),
        Err(CrossChainError::ChainNotFound)
    );
    assert!(registry.chain("chain-3").is_some());
    assert!(registry.chain_mut("more").is_none());
    registry
        .observe_header("chain-3", RecentHeader::new(1, 1_000, 3, 3, 1_000))
        .unwrap();
    assert_eq!(
        registry.try_finalize("chain-3", 1_000),
        Ok(FinalityDecision::Finalized)
    );
    let gauges = registry.finality_lag_gauges(11_001);
    assert_eq!(gauges.len(), MAX_CONNECTED_CHAINS);
    let gauge = gauges.iter().find(|g| g.chain_id == "chain-3").unwrap();
    assert_eq!(gauge.finality_lag_ms, 10_001);
    assert_eq!(gauge.finalized_height, Some(1));
    assert!(!gauge.within_target);
}

#[test]
fn connected_chain_samples_block_times_from_headers() {
    let mut chain = ConnectedChain::new(config(2_000), 0);
    chain.observe_header(RecentHeader::new(10, 100_000, 9, 9, 100_000));
    chain.observe_header(RecentHeader::new(11, 103_000, 9, 9, 103_000));
    chain.observe_header(RecentHeader::new(20, 200_000, 9, 9, 200_000));
    assert_eq!(chain.block_time.sample_count(), 1);
    assert_eq!(chain.block_time.ema_block_time_ms(), Some(3_000));
    assert!(chain.drift_detected(200_000));
    assert_eq!(
        chain.try_finalize_latest(200_000),
        FinalityDecision::AwaitingGracePeriod
    );
    chain.record_sync(SyncOutcome::Success, 200_000);
    assert!(!chain.drift_detected(200_000));
    assert_eq!(
        chain.try_finalize_latest(200_000),
        FinalityDecision::Finalized
    );
    assert_eq!(chain.metrics(200_500).finality_lag_ms, 500);
}

#[test]
fn ema_moves_three_tenths_of_the_way() {
    let mut estimator = BlockTimeEstimator::new("dest".into());
    assert!(!estimator.record_block_time_ms(0));
    estimator.record_block_time_ms(1_000);
    estimator.record_block_time_ms(2_000);
    assert_eq!(estimator.ema_block_time_ms(), Some(1_300));
    assert_eq!(estimator.window_mean_block_time_ms(), Some(1_500));
    assert_eq!(estimator.chain_id(), "dest");
    assert!(!estimator.is_warm());
    assert_eq!(estimator.mean_block_time_ms(&config(2_000)), 1_500);
}

#[test]
fn percentiles_are_samples_in_order() {
    let mut estimator = BlockTimeEstimator::new("dest".into());
    assert_eq!(estimator.percentile_block_time_ms(50), None);
    for i in 1..=100u64 {
        estimator.record_block_time_ms(i * 10);
    }
    assert_eq!(estimator.percentile_block_time_ms(50), Some(500));
    assert_eq!(estimator.p95_block_time_ms(), Some(950));
    assert_eq!(estimator.percentile_block_time_ms(100), Some(1_000));
    // The window slides: the oldest sample makes room.
    estimator.record_block_time_ms(5_000);
    assert_eq!(estimator.sample_count(), 100);
    assert_eq!(estimator.percentile_block_time_ms(1), Some(20));
    assert_eq!(estimator.percentile_block_time_ms(100), Some(5_000));
}

#[test]
fn uniform_chain_has_unit_dispersion() {
    let mut estimator = BlockTimeEstimator::new("dest".into());
    for _ in 0..100 {
        estimator.record_block_time_ms(3_000);
    }
    assert_eq!(estimator.dispersion_bps(&config(2_000)), 10_000);
}

#[test]
fn only_direct_successors_are_sampled() {
    let mut estimator = BlockTimeEstimator::new("dest".into());
    assert!(!estimator.observe_header(5, 1_000));
    assert!(!estimator.observe_header(7, 3_000));
    assert!(estimator.observe_header(8, 4_500));
    assert!(!estimator.observe_header(8, 5_000));
    assert_eq!(estimator.window_mean_block_time_ms(), Some(1_500));
}

#[test]
fn reseeding_restarts_from_the_average() {
    let mut estimator = BlockTimeEstimator::new("dest".into());
    assert_eq!(estimator.reseed_from_ema(), None);
    estimator.record_block_time_ms(1_000);
    estimator.record_block_time_ms(2_000);
    assert_eq!(estimator.reseed_from_ema(), Some(1_300));
    assert_eq!(estimator.window_mean_block_time_ms(), Some(1_300));
}

#[test]
fn block_count_covers_the_window() {
    assert_eq!(block_count(7_000, 60_000, false), Ok(9));
    assert!(9 * 7_000 >= 60_000 && 8 * 7_000 < 60_000);
    assert_eq!(block_count(7_000, 60_000, true), Ok(14));
    assert_eq!(
        block_count(2_000, 9_999, false),
        Err(IbcTimeoutError::TimeoutDeltaOutOfRange)
    );
    assert_eq!(
        block_count(2_000, 300_001, false),
        Err(IbcTimeoutError::TimeoutDeltaOutOfRange)
    );
    assert_eq!(
        block_count(60_001, 60_000, false),
        Err(IbcTimeoutError::DeltaBelowBlockGranularity)
    );
    assert_eq!(block_count(60, 60_000, false), Ok(1_000));
    assert_eq!(
        block_count(59, 60_000, false),
        Err(IbcTimeoutError::PacketLifetimeExceeded)
    );
}

#[test]
fn rejected_request_keeps_the_cold_start_allowance() {
    let mut estimator = BlockTimeEstimator::new("dest".into());
    assert!(in_cold_start(&estimator));
    assert_eq!(
        compute_timeout(&mut estimator, &config(2_000), 7, 1),
        Err(IbcTimeoutError::TimeoutDeltaOutOfRange)
    );
    assert_eq!(estimator.packets_issued(), 0);
    let estimate = compute_timeout(&mut estimator, &config(2_000), 7, 60_000).unwrap();
    assert_eq!(estimate.timeout_height, 7 + 45);
    assert_eq!(estimate.base_block_count, 30);
    assert!(estimate.cold_start);
    assert_eq!(estimator.packets_issued(), 1);
}

#[test]
fn relayer_rejects_duplicates_and_unknown_packets() {
    let (mut relayer, mut chain) = (PacketRelayer::default(), settled_chain());
    relayer.send_packet(&mut chain, packet(1), 0, 0, 60_000).unwrap();
    assert_eq!(
        relayer.send_packet(&mut chain, packet(1), 0, 0, 60_000),
        Err(IbcRelayerError::DuplicatePacket)
    );
    assert_eq!(
        relayer.send_packet(&mut chain, packet(2), 0, 0, 1),
        Err(IbcRelayerError::Timeout(
            IbcTimeoutError::TimeoutDeltaOutOfRange
        ))
    );
    assert_eq!(
        relayer.acknowledge_packet(&mut chain, &packet(9), 1, 1),
        Err(IbcRelayerError::PacketNotFound)
    );
    let sent = relayer.in_flight(&packet(1)).unwrap();
    assert_eq!(sent.intended_deadline_ms(), 60_000);
    assert_eq!(sent.tolerance_ms(), 30_000);
    assert_eq!(sent.earliest_acceptable_ms(), 30_000);
    assert_eq!(sent.latest_acceptable_ms(), 90_000);
    assert_eq!(relayer.in_flight_count(), 1);
    let resolution = relayer
        .acknowledge_packet(&mut chain, &packet(1), 10, 20_000)
        .unwrap();
    assert_eq!(resolution.outcome, PacketOutcome::Acknowledged);
    assert_eq!(relayer.in_flight_count(), 0);
}

#[test]
fn cold_start_packets_do_not_vote() {
    let mut chain = ConnectedChain::new(config(2_000), 0);
    let mut relayer = PacketRelayer::new();
    relayer.send_packet(&mut chain, packet(1), 0, 0, 60_000).unwrap();
    let resolved = relayer.observe_destination_height(&mut chain, 45, 1);
    assert_eq!(resolved.len(), 1);
    assert_eq!(resolved[0].miss, Some(TimeoutMiss::TooEarly));
    assert_eq!(relayer.resolved_in_window("dest"), 0);
    assert_eq!(relayer.misestimation_rate_bps("dest"), None);
}

#[test]
fn recalibration_clears_the_window_of_its_chain() {
    let (mut relayer, mut chain) = (PacketRelayer::new(), settled_chain());
    let mut recalibrated = 0;
    for sequence in 0..MISESTIMATION_WINDOW_PACKETS as u64 {
        let at = if sequence < 6 { 1 } else { 60_000 };
        relayer.send_packet(&mut chain, packet(sequence), 0, 0, 60_000).unwrap();
        let resolved = relayer.observe_destination_height(&mut chain, 30, at);
        if resolved[0].recalibrated {
            recalibrated += 1;
        }
    }
    assert_eq!(recalibrated, 1);
    assert_eq!(relayer.resolved_in_window("dest"), 0);
    assert_eq!(relayer.misestimation_rate_bps("dest"), None);
    let events = relayer.drain_events();
    assert!(matches!(
        events.last().unwrap(),
        IbcRelayerEvent::EstimatorRecalibrated {
            misestimation_rate_bps: 600,
            early_count: 6,
            late_count: 0,
            ..
        }
    ));
    assert!(relayer.events().is_empty());
    // Early misses are in the majority: the margin is armed again, and the window starts from the
    // moving average.
    assert!(in_cold_start(&chain.block_time));
    assert_eq!(chain.block_time.sample_count(), 1);
    assert_eq!(chain.block_time.window_mean_block_time_ms(), Some(2_000));
}

#[test]
fn acknowledgements_count_as_resolved_and_never_as_missed() {
    let (mut relayer, mut chain) = (PacketRelayer::new(), settled_chain());
    for sequence in 0..3 {
        relayer.send_packet(&mut chain, packet(sequence), 0, 0, 60_000).unwrap();
    }
    relayer.acknowledge_packet(&mut chain, &packet(0), 5, 10_000).unwrap();
    relayer.acknowledge_packet(&mut chain, &packet(1), 5, 10_000).unwrap();
    assert_eq!(relayer.resolved_in_window("dest"), 2);
    assert_eq!(relayer.misestimation_rate_bps("dest"), Some(0));
    let resolved = relayer.observe_destination_height(&mut chain, 29, 90_001);
    assert_eq!(resolved[0].outcome, PacketOutcome::TimedOutBeyondWindow);
    assert_eq!(resolved[0].miss, Some(TimeoutMiss::TooLate));
    assert_eq!(relayer.misestimation_rate_bps("dest"), Some(3_333));
}
