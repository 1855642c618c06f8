use verinode_core::capacity_planning::{
    AVAILABILITY_TARGET_BPS, CANARY_SUCCESS_TARGET_BPS, CRITICAL_PATH_P99_MS, CapacityAction,
    CapacityCanaryAnalysis, CapacityError, CapacityForecaster, CapacityHealthState,
    CapacityPlanningConfig, CapacityPlanningRegistry, DEFAULT_CRITICAL_THRESHOLD_BPS,
    DEFAULT_EXHAUSTION_THRESHOLD_BPS, DEFAULT_REACTION_COOLDOWN_SECS,
    DEFAULT_WARNING_THRESHOLD_BPS, HistoricalUsageBuffer, ResourceMetrics, ServiceCapacityState,
    UsageSample,
};
use verinode_core::ordered_map::OrderedMap;

fn make_sample(ts: u64, peak_bps: u32, p99_ms: u64) -> UsageSample {
    UsageSample::new(
        ts,
        ResourceMetrics::new(peak_bps, peak_bps / 2, peak_bps / 3, peak_bps / 4, peak_bps),
        p99_ms,
        4,
        1_000,
        0,
    )
}

#[test]
fn test_issue_127_technical_invariants() {
    assert_eq!(CRITICAL_PATH_P99_MS, 100);
    assert_eq!(AVAILABILITY_TARGET_BPS, 9_999);
    assert_eq!(CANARY_SUCCESS_TARGET_BPS, 9_999);
    assert_eq!(DEFAULT_WARNING_THRESHOLD_BPS, 8_000);
    assert_eq!(DEFAULT_CRITICAL_THRESHOLD_BPS, 9_000);
    assert_eq!(DEFAULT_EXHAUSTION_THRESHOLD_BPS, 10_000);
    assert_eq!(DEFAULT_REACTION_COOLDOWN_SECS, 30);
}

#[test]
fn test_metrics_peak_and_mean() {
    let metrics = ResourceMetrics::new(5_000, 7_000, 3_000, 2_000, 4_000);
    assert_eq!(metrics.peak_saturation_bps(), 7_000);
    assert_eq!(metrics.mean_utilization_bps(), 4_200);
}

#[test]
fn test_historical_buffer_capacity_and_eviction() {
    let mut buffer = HistoricalUsageBuffer::new(3);
    buffer.push(make_sample(10, 2_000, 40));
    buffer.push(make_sample(20, 3_000, 45));
    buffer.push(make_sample(30, 4_000, 50));
    assert_eq!(buffer.len(), 3);
    assert_eq!(buffer.oldest().unwrap().timestamp_secs, 10);
    assert_eq!(buffer.latest().unwrap().timestamp_secs, 30);

    buffer.push(make_sample(40, 5_000, 55));
    assert_eq!(buffer.len(), 3);
    assert_eq!(buffer.oldest().unwrap().timestamp_secs, 20);
    assert_eq!(buffer.latest().unwrap().timestamp_secs, 40);
}

#[test]
fn test_health_classification_healthy() {
    let sample = make_sample(100, 5_000, 40);
    let config = CapacityPlanningConfig::default();
    assert_eq!(
        CapacityForecaster::classify_health(&sample, None, &config),
        CapacityHealthState::Healthy
    );
}

#[test]
fn test_health_classification_warning_and_critical() {
    let config = CapacityPlanningConfig::default();
    let warning_sample = make_sample(100, 8_200, 50);
    assert_eq!(
        CapacityForecaster::classify_health(&warning_sample, None, &config),
        CapacityHealthState::Warning
    );

    let critical_sample = make_sample(100, 9_200, 60);
    assert_eq!(
        CapacityForecaster::classify_health(&critical_sample, None, &config),
        CapacityHealthState::Critical
    );
}

#[test]
fn test_health_classification_p99_violation_triggers_exhausted() {
    // Latency exceeds 100ms bound even if saturation is moderate
    let sample = make_sample(100, 4_000, 105);
    let config = CapacityPlanningConfig::default();
    assert_eq!(
        CapacityForecaster::classify_health(&sample, None, &config),
        CapacityHealthState::Exhausted
    );
}

#[test]
fn test_sizing_recommendation_scale_up_on_saturation() {
    let mut state = ServiceCapacityState::new("consensus", 4, 10);
    state.record_sample(make_sample(0, 8_200, 45));
    let config = CapacityPlanningConfig::default();

    let action = CapacityForecaster::recommend_action(&state, None, &config, 100);
    match action {
        CapacityAction::ScaleUp {
            delta_units,
            target_units,
            ..
        } => {
            assert!(delta_units >= 1);
            assert_eq!(target_units, 4 + delta_units);
        }
        _ => panic!("Expected ScaleUp action"),
    }
}

#[test]
fn test_sizing_recommendation_cooldown_active() {
    let mut state = ServiceCapacityState::new("consensus", 4, 10);
    state.record_sample(make_sample(100, 8_500, 45));
    state.last_action_at = Some(90); // 10 seconds ago, cooldown is 30s
    let config = CapacityPlanningConfig::default();

    let action = CapacityForecaster::recommend_action(&state, None, &config, 100);
    assert_eq!(action, CapacityAction::NoAction);
}

#[test]
fn test_sizing_recommendation_scale_down_when_underutilized() {
    let mut state = ServiceCapacityState::new("settlement", 4, 10);
    state.record_sample(make_sample(0, 1_500, 15));
    let config = CapacityPlanningConfig::default();

    let action = CapacityForecaster::recommend_action(&state, None, &config, 100);
    match action {
        CapacityAction::ScaleDown {
            delta_units,
            target_units,
            ..
        } => {
            assert_eq!(delta_units, 1);
            assert_eq!(target_units, 3);
        }
        _ => panic!("Expected ScaleDown action"),
    }
}

#[test]
fn test_canary_gate_success() {
    let canary = CapacityCanaryAnalysis::new("mempool", 8, 100_000, 99_995, 75, 9_999, true);
    assert_eq!(canary.success_rate_bps(), 9_999);
    assert!(canary.passes_release_gate().is_ok());
}

#[test]
fn test_canary_gate_security_review_required() {
    let canary = CapacityCanaryAnalysis::new(
        "mempool", 8, 100_000, 99_995, 75, 9_999, false, // Security review missing
    );
    assert_eq!(
        canary.passes_release_gate(),
        Err(CapacityError::SecurityReviewRequired)
    );
}

#[test]
fn test_canary_gate_availability_target_violated() {
    let canary = CapacityCanaryAnalysis::new(
        "mempool", 8, 100_000, 99_995, 75, 9_990, // 99.90% < 99.99% target
        true,
    );
    assert_eq!(
        canary.passes_release_gate(),
        Err(CapacityError::AvailabilityTargetViolated)
    );
}

#[test]
fn test_canary_gate_p99_latency_violated() {
    let canary = CapacityCanaryAnalysis::new(
        "mempool", 8, 100_000, 99_995, 105, // 105ms > 100ms target
        9_999, true,
    );
    assert_eq!(
        canary.passes_release_gate(),
        Err(CapacityError::LatencyTargetViolated)
    );
}

#[test]
fn test_canary_gate_success_rate_violated() {
    let canary = CapacityCanaryAnalysis::new(
        "mempool", 8, 100_000, 99_800, // 99.80% < 99.99%
        80, 9_999, true,
    );
    assert_eq!(
        canary.passes_release_gate(),
        Err(CapacityError::CanaryValidationFailed)
    );
}

#[test]
fn test_registry_lifecycle_and_dashboard() {
    let mut registry = CapacityPlanningRegistry::default();
    assert!(registry.register_service("consensus", 4).is_ok());
    assert!(registry.register_service("mempool", 6).is_ok());

    assert_eq!(
        registry.register_service("consensus", 4),
        Err(CapacityError::ServiceAlreadyExists)
    );

    registry
        .record_sample("consensus", make_sample(10, 4_000, 30))
        .unwrap();
    registry
        .record_sample("consensus", make_sample(20, 4_000, 30))
        .unwrap();
    registry
        .record_sample("consensus", make_sample(30, 4_000, 30))
        .unwrap();

    registry
        .record_sample("mempool", make_sample(10, 8_500, 45))
        .unwrap();

    let snapshot = registry.dashboard_snapshot(&OrderedMap::new(), 50);
    assert_eq!(snapshot.services_monitored, 2);
    assert_eq!(snapshot.total_units_allocated, 10);
    assert_eq!(snapshot.max_saturation_bps, 8_500);
    assert_eq!(snapshot.warning_count, 1);
    assert_eq!(snapshot.healthy_count, 1);
}

#[test]
fn test_registry_promote_canary() {
    let mut registry = CapacityPlanningRegistry::default();
    registry.register_service("attestation", 4).unwrap();

    let canary = CapacityCanaryAnalysis::new("attestation", 8, 50_000, 49_998, 45, 9_999, true);

    let old = registry
        .promote_canary_deployment("attestation", &canary, 100)
        .unwrap();
    assert_eq!(old, 4);
    assert_eq!(
        registry.service_state("attestation").unwrap().current_units,
        8
    );
}
