use verinode_core::graceful_degradation::{
    AVAILABILITY_TARGET_BPS, CANARY_SUCCESS_TARGET_BPS, CRITICAL_PATH_P99_TARGET_MS, CanaryError,
    CanaryGate, CapacitySensor, DEFAULT_HARD_SHED_THRESHOLD_BPS, DEFAULT_SHEDDING_THRESHOLD_BPS,
    DegradationConfig, DegradationDecision, DegradationPolicy, DeploymentStage,
    DeploymentStageRegistry, FeatureFlag, FeatureFlagSet, FlagError, FlagState,
    dashboard_snapshot,
};

// -----------------------------------------------------------------------
// Helpers
// -----------------------------------------------------------------------

fn healthy_sensor() -> CapacitySensor {
    CapacitySensor {
        utilisation_bps: 5_000, // 50 %
        p99_latency_ms: 80,
        in_flight_requests: 100,
    }
}

fn overloaded_sensor_soft() -> CapacitySensor {
    CapacitySensor {
        utilisation_bps: 9_200, // above soft, below hard
        p99_latency_ms: 80,
        in_flight_requests: 500,
    }
}

fn overloaded_sensor_hard() -> CapacitySensor {
    CapacitySensor {
        utilisation_bps: 9_600, // above hard threshold
        p99_latency_ms: 80,
        in_flight_requests: 800,
    }
}

fn slow_sensor() -> CapacitySensor {
    CapacitySensor {
        utilisation_bps: 5_000,
        p99_latency_ms: 101, // exceeds P99 target
        in_flight_requests: 100,
    }
}

fn config() -> DegradationConfig {
    DegradationConfig::default()
}

fn enabled_flag(name: &str) -> FeatureFlag {
    FeatureFlag {
        name: name.into(),
        state: FlagState::Enabled,
        security_reviewed: true,
    }
}

fn flags_with(flag: FeatureFlag) -> FeatureFlagSet {
    let mut set = FeatureFlagSet::new();
    set.register(flag).unwrap();
    set
}

// -----------------------------------------------------------------------
// FeatureFlag
// -----------------------------------------------------------------------

#[test]
fn enabled_flag_is_active_for_all_traffic() {
    let f = enabled_flag("consensus");
    assert!(f.is_active(false));
    assert!(f.is_active(true));
}

#[test]
fn disabled_flag_is_inactive_for_all_traffic() {
    let f = FeatureFlag {
        name: "consensus".into(),
        state: FlagState::Disabled,
        security_reviewed: false,
    };
    assert!(!f.is_active(false));
    assert!(!f.is_active(true));
}

#[test]
fn canary_flag_is_active_only_for_canary_traffic() {
    let f = FeatureFlag {
        name: "consensus".into(),
        state: FlagState::Canary,
        security_reviewed: true,
    };
    assert!(!f.is_active(false));
    assert!(f.is_active(true));
}

// -----------------------------------------------------------------------
// FeatureFlagSet
// -----------------------------------------------------------------------

#[test]
fn flag_set_rejects_empty_name() {
    let mut set = FeatureFlagSet::new();
    assert_eq!(
        set.register(FeatureFlag::new(String::new())),
        Err(FlagError::EmptyFlagName)
    );
}

#[test]
fn flag_set_requires_security_review_to_enable() {
    let mut set = FeatureFlagSet::new();
    set.register(FeatureFlag::new("f".into())).unwrap();
    assert_eq!(
        set.set_state("f", FlagState::Enabled, false),
        Err(FlagError::SecurityReviewRequired)
    );
}

#[test]
fn flag_set_requires_security_review_for_canary() {
    let mut set = FeatureFlagSet::new();
    set.register(FeatureFlag::new("f".into())).unwrap();
    assert_eq!(
        set.set_state("f", FlagState::Canary, false),
        Err(FlagError::SecurityReviewRequired)
    );
}

#[test]
fn flag_set_allows_disable_without_review() {
    let mut set = FeatureFlagSet::new();
    set.register(enabled_flag("f")).unwrap();
    assert!(set.set_state("f", FlagState::Disabled, false).is_ok());
    assert_eq!(set.state("f"), Some(FlagState::Disabled));
}

#[test]
fn flag_set_counts_states_correctly() {
    let mut set = FeatureFlagSet::new();
    set.register(enabled_flag("a")).unwrap();
    set.register(FeatureFlag {
        name: "b".into(),
        state: FlagState::Canary,
        security_reviewed: true,
    })
    .unwrap();
    set.register(FeatureFlag::new("c".into())).unwrap();

    assert_eq!(set.flag_count(), 3);
    assert_eq!(set.enabled_count(), 1);
    assert_eq!(set.canary_count(), 1);
}

#[test]
fn flag_set_returns_none_for_unknown_flag() {
    let set = FeatureFlagSet::new();
    assert_eq!(set.state("unknown"), None);
    assert!(!set.is_active("unknown", true));
}

// -----------------------------------------------------------------------
// CapacitySensor
// -----------------------------------------------------------------------

#[test]
fn sensor_soft_threshold_triggers_at_boundary() {
    let cfg = config();
    let at_boundary = CapacitySensor {
        utilisation_bps: DEFAULT_SHEDDING_THRESHOLD_BPS,
        p99_latency_ms: 50,
        in_flight_requests: 0,
    };
    assert!(at_boundary.exceeds_soft_threshold(&cfg));

    let below = CapacitySensor {
        utilisation_bps: DEFAULT_SHEDDING_THRESHOLD_BPS - 1,
        ..at_boundary
    };
    assert!(!below.exceeds_soft_threshold(&cfg));
}

#[test]
fn sensor_hard_threshold_triggers_at_boundary() {
    let cfg = config();
    let at_boundary = CapacitySensor {
        utilisation_bps: DEFAULT_HARD_SHED_THRESHOLD_BPS,
        p99_latency_ms: 50,
        in_flight_requests: 0,
    };
    assert!(at_boundary.exceeds_hard_threshold(&cfg));

    let below = CapacitySensor {
        utilisation_bps: DEFAULT_HARD_SHED_THRESHOLD_BPS - 1,
        ..at_boundary
    };
    assert!(!below.exceeds_hard_threshold(&cfg));
}

#[test]
fn sensor_latency_violation_at_p99_boundary() {
    let ok = CapacitySensor {
        utilisation_bps: 0,
        p99_latency_ms: CRITICAL_PATH_P99_TARGET_MS,
        in_flight_requests: 0,
    };
    // Exactly at target — no violation.
    assert!(!ok.latency_violated());

    let violated = CapacitySensor {
        p99_latency_ms: CRITICAL_PATH_P99_TARGET_MS + 1,
        ..ok
    };
    assert!(violated.latency_violated());
}

// -----------------------------------------------------------------------
// DegradationPolicy
// -----------------------------------------------------------------------

#[test]
fn full_service_when_healthy_and_flag_enabled() {
    let flags = flags_with(enabled_flag("payments"));
    let decision =
        DegradationPolicy::evaluate("payments", false, &healthy_sensor(), &flags, &config());
    assert_eq!(decision, DegradationDecision::FullService);
}

#[test]
fn degraded_fallback_when_flag_disabled() {
    let flags = flags_with(FeatureFlag::new("payments".into()));
    let decision =
        DegradationPolicy::evaluate("payments", false, &healthy_sensor(), &flags, &config());
    assert_eq!(decision, DegradationDecision::DegradedFallback);
}

#[test]
fn degraded_fallback_when_global_flags_disabled() {
    let flags = flags_with(enabled_flag("payments"));
    let cfg = DegradationConfig {
        flags_enabled: false,
        ..config()
    };
    let decision =
        DegradationPolicy::evaluate("payments", false, &healthy_sensor(), &flags, &cfg);
    assert_eq!(decision, DegradationDecision::DegradedFallback);
}

#[test]
fn degraded_fallback_under_soft_capacity_pressure() {
    let flags = flags_with(enabled_flag("payments"));
    let decision = DegradationPolicy::evaluate(
        "payments",
        false,
        &overloaded_sensor_soft(),
        &flags,
        &config(),
    );
    assert_eq!(decision, DegradationDecision::DegradedFallback);
}

#[test]
fn shed_load_under_hard_capacity_pressure() {
    let flags = flags_with(enabled_flag("payments"));
    let decision = DegradationPolicy::evaluate(
        "payments",
        false,
        &overloaded_sensor_hard(),
        &flags,
        &config(),
    );
    assert_eq!(decision, DegradationDecision::ShedLoad);
}

#[test]
fn hard_shed_beats_flag_disabled_and_global_kill_switch() {
    // Even with flags disabled and global kill-switch, hard-shed takes priority.
    let flags = FeatureFlagSet::new();
    let cfg = DegradationConfig {
        flags_enabled: false,
        ..config()
    };
    let decision =
        DegradationPolicy::evaluate("any", false, &overloaded_sensor_hard(), &flags, &cfg);
    assert_eq!(decision, DegradationDecision::ShedLoad);
}

#[test]
fn degraded_fallback_when_latency_violated() {
    let flags = flags_with(enabled_flag("payments"));
    let decision =
        DegradationPolicy::evaluate("payments", false, &slow_sensor(), &flags, &config());
    assert_eq!(decision, DegradationDecision::DegradedFallback);
}

#[test]
fn canary_flag_gives_full_service_for_canary_traffic_only() {
    let mut flags = FeatureFlagSet::new();
    flags
        .register(FeatureFlag {
            name: "fast-path".into(),
            state: FlagState::Canary,
            security_reviewed: true,
        })
        .unwrap();

    let canary_decision = DegradationPolicy::evaluate(
        "fast-path",
        true, // canary traffic
        &healthy_sensor(),
        &flags,
        &config(),
    );
    let normal_decision = DegradationPolicy::evaluate(
        "fast-path",
        false, // normal traffic
        &healthy_sensor(),
        &flags,
        &config(),
    );

    assert_eq!(canary_decision, DegradationDecision::FullService);
    assert_eq!(normal_decision, DegradationDecision::DegradedFallback);
}

// -----------------------------------------------------------------------
// dashboard_snapshot
// -----------------------------------------------------------------------

#[test]
fn snapshot_reflects_flag_counts_and_capacity() {
    let mut flags = FeatureFlagSet::new();
    flags.register(enabled_flag("a")).unwrap();
    flags
        .register(FeatureFlag {
            name: "b".into(),
            state: FlagState::Canary,
            security_reviewed: true,
        })
        .unwrap();
    flags.register(FeatureFlag::new("c".into())).unwrap();

    let sensor = overloaded_sensor_soft();
    let snap = dashboard_snapshot(&flags, &sensor, &config());

    assert_eq!(snap.flags_total, 3);
    assert_eq!(snap.flags_enabled, 1);
    assert_eq!(snap.flags_canary, 1);
    assert_eq!(snap.flags_disabled, 1);
    assert_eq!(snap.utilisation_bps, sensor.utilisation_bps);
    assert!(snap.soft_shedding_active);
    assert!(!snap.hard_shedding_active);
    assert!(!snap.latency_violated);
    assert_eq!(snap.p99_target_ms, CRITICAL_PATH_P99_TARGET_MS);
    assert_eq!(snap.availability_target_bps, AVAILABILITY_TARGET_BPS);
}

// -----------------------------------------------------------------------
// CanaryGate
// -----------------------------------------------------------------------

#[test]
fn canary_passes_release_gate_when_all_criteria_met() {
    let gate = CanaryGate {
        requests: 10_000,
        successful_requests: 9_999,
        p99_latency_ms: 100,
        security_review_passed: true,
    };
    assert_eq!(gate.success_rate_bps(), 9_999);
    assert!(gate.passes_release_gate().is_ok());
}

#[test]
fn canary_fails_without_security_review() {
    let gate = CanaryGate {
        requests: 10_000,
        successful_requests: 10_000,
        p99_latency_ms: 50,
        security_review_passed: false,
    };
    assert_eq!(
        gate.passes_release_gate(),
        Err(CanaryError::SecurityReviewRequired)
    );
}

#[test]
fn canary_fails_when_latency_exceeds_p99_target() {
    let gate = CanaryGate {
        requests: 10_000,
        successful_requests: 10_000,
        p99_latency_ms: 101,
        security_review_passed: true,
    };
    assert_eq!(gate.passes_release_gate(), Err(CanaryError::CanaryFailed));
}

#[test]
fn canary_fails_when_success_rate_below_gate() {
    let gate = CanaryGate {
        requests: 10_000,
        successful_requests: 9_990,
        p99_latency_ms: 50,
        security_review_passed: true,
    };
    assert_eq!(gate.passes_release_gate(), Err(CanaryError::CanaryFailed));
}

#[test]
fn canary_zero_requests_yields_zero_success_rate() {
    let gate = CanaryGate {
        requests: 0,
        successful_requests: 0,
        p99_latency_ms: 0,
        security_review_passed: true,
    };
    assert_eq!(gate.success_rate_bps(), 0);
}

// -----------------------------------------------------------------------
// DeploymentStage
// -----------------------------------------------------------------------

#[test]
fn deployment_stage_advances_through_full_sequence() {
    assert_eq!(
        DeploymentStage::Development.next(),
        DeploymentStage::BlueGreenShadow
    );
    assert_eq!(
        DeploymentStage::BlueGreenShadow.next(),
        DeploymentStage::CanaryOnePercent
    );
    assert_eq!(
        DeploymentStage::CanaryOnePercent.next(),
        DeploymentStage::CanaryTenPercent
    );
    assert_eq!(
        DeploymentStage::CanaryTenPercent.next(),
        DeploymentStage::FullRollout
    );
    assert_eq!(
        DeploymentStage::FullRollout.next(),
        DeploymentStage::FullRollout
    );
}

#[test]
fn canary_stages_are_identified_correctly() {
    assert!(!DeploymentStage::Development.is_canary());
    assert!(!DeploymentStage::BlueGreenShadow.is_canary());
    assert!(DeploymentStage::CanaryOnePercent.is_canary());
    assert!(DeploymentStage::CanaryTenPercent.is_canary());
    assert!(!DeploymentStage::FullRollout.is_canary());
}

// -----------------------------------------------------------------------
// DeploymentStageRegistry
// -----------------------------------------------------------------------

#[test]
fn registry_promotes_through_pre_canary_stages_unconditionally() {
    let mut reg = DeploymentStageRegistry::new();
    reg.set_stage("feat".into(), DeploymentStage::Development)
        .unwrap();

    let next = reg.promote("feat", None).unwrap();
    assert_eq!(next, DeploymentStage::BlueGreenShadow);
    assert_eq!(reg.stage("feat"), Some(DeploymentStage::BlueGreenShadow));
}

#[test]
fn registry_requires_passing_canary_to_promote_from_canary_stage() {
    let mut reg = DeploymentStageRegistry::new();
    reg.set_stage("feat".into(), DeploymentStage::CanaryOnePercent)
        .unwrap();

    // No canary → fails.
    assert_eq!(reg.promote("feat", None), Err(CanaryError::CanaryFailed));

    // Failing canary → fails.
    let bad = CanaryGate {
        requests: 1_000,
        successful_requests: 900,
        p99_latency_ms: 50,
        security_review_passed: true,
    };
    assert_eq!(
        reg.promote("feat", Some(&bad)),
        Err(CanaryError::CanaryFailed)
    );
}

#[test]
fn registry_promotes_from_canary_stage_with_passing_gate() {
    let mut reg = DeploymentStageRegistry::new();
    reg.set_stage("feat".into(), DeploymentStage::CanaryOnePercent)
        .unwrap();

    let good = CanaryGate {
        requests: 10_000,
        successful_requests: 9_999,
        p99_latency_ms: 90,
        security_review_passed: true,
    };
    let next = reg.promote("feat", Some(&good)).unwrap();
    assert_eq!(next, DeploymentStage::CanaryTenPercent);
}

#[test]
fn registry_snapshot_returns_all_features() {
    let mut reg = DeploymentStageRegistry::new();
    reg.set_stage("a".into(), DeploymentStage::FullRollout)
        .unwrap();
    reg.set_stage("b".into(), DeploymentStage::Development)
        .unwrap();

    let snap = reg.snapshot();
    assert_eq!(snap.len(), 2);
    // BTreeMap guarantees lexicographic order.
    assert_eq!(snap[0].0, "a");
    assert_eq!(snap[1].0, "b");
}

#[test]
fn registry_rejects_empty_feature_name() {
    let mut reg = DeploymentStageRegistry::new();
    assert_eq!(
        reg.set_stage(String::new(), DeploymentStage::Development),
        Err(FlagError::EmptyFlagName)
    );
}

// -----------------------------------------------------------------------
// Operational constants
// -----------------------------------------------------------------------

#[test]
fn issue_132_constants_match_technical_bounds() {
    assert_eq!(CRITICAL_PATH_P99_TARGET_MS, 100);
    assert_eq!(AVAILABILITY_TARGET_BPS, 9_999);
    assert_eq!(DEFAULT_SHEDDING_THRESHOLD_BPS, 9_000);
    assert_eq!(DEFAULT_HARD_SHED_THRESHOLD_BPS, 9_500);
    assert_eq!(CANARY_SUCCESS_TARGET_BPS, 9_999);
}
