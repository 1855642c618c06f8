use verinode_core::capacity_planning::{
    CapacityAction, CapacityCanaryAnalysis, CapacityError, CapacityForecaster,
    CapacityHealthState, CapacityPlanningConfig, CapacityPlanningRegistry, HistoricalUsageBuffer,
    ResourceMetrics, ServiceCapacityState, TrendEstimate, TrendProjection, UsageSample,
    MAX_TRACKED_SERVICES,
};
use verinode_core::graceful_degradation::{
    dashboard_snapshot, CanaryError, CanaryGate, CapacitySensor, DegradationConfig,
    DegradationDecision, DegradationPolicy, DeploymentStage, DeploymentStageRegistry, FeatureFlag,
    FeatureFlagSet, FlagError, FlagState, MAX_FEATURE_FLAGS,
};
use verinode_core::job_scheduler::{
    JobScheduler, JobState, Lease, SchedulerConfig, SchedulerError, SchedulerMetrics,
};
use verinode_core::ordered_map::OrderedMap;

fn sample(at: u64, saturation: u32, p99: u64) -> UsageSample {
    UsageSample::new(
        at,
        ResourceMetrics::new(saturation, 0, 0, 0, 0),
        p99,
        1,
        0,
        0,
    )
}

fn estimate(critical: Option<u64>, exhaustion: Option<u64>) -> TrendEstimate {
    TrendEstimate {
        forecast_bps: 12_345,
        warning_secs: Some(1),
        critical_secs: critical,
        exhaustion_secs: exhaustion,
        is_accelerating: true,
    }
}

fn passing_canary(units: u32) -> CapacityCanaryAnalysis {
    CapacityCanaryAnalysis::new("svc", units, 10_000, 9_999, 100, 9_999, true)
}

fn queued(priorities: &[u8]) -> JobScheduler {
    let mut scheduler = JobScheduler::default();
    for priority in priorities {
        scheduler
            .enqueue("q".into(), *priority, vec![*priority], 60, 100)
            .unwrap();
    }
    scheduler
}

#[test]
fn jobs_are_claimed_by_priority_then_age_then_number() {
    let mut scheduler = JobScheduler::default();
    scheduler.enqueue("q".into(), 2, Vec::new(), 60, 50).unwrap();
    scheduler.enqueue("q".into(), 1, Vec::new(), 60, 90).unwrap();
    scheduler.enqueue("q".into(), 1, Vec::new(), 60, 70).unwrap();
    scheduler.enqueue("q".into(), 1, Vec::new(), 60, 70).unwrap();
    let order: Vec<u64> = scheduler.pending_jobs().iter().map(|job| job.id).collect();
    assert_eq!(order, vec![3, 4, 2, 1]);
    for expected in order {
        assert_eq!(scheduler.acquire(1, 100).unwrap().id, expected);
    }
    assert_eq!(
        scheduler.acquire(1, 100),
        Err(SchedulerError::JobNotFound(0))
    );
}

#[test]
fn lease_is_exclusive_until_it_runs_out() {
    let mut scheduler = queued(&[1]);
    let job = scheduler.acquire(7, 1_000).unwrap();
    assert_eq!(
        job.state,
        JobState::Acquired {
            worker_id: 7,
            lease_expires_at: 1_030
        }
    );
    assert_eq!(job.acquisition_attempts, 1);
    assert_eq!(
        scheduler.acquire(8, 1_029),
        Err(SchedulerError::JobNotFound(0))
    );
    assert_eq!(
        scheduler.active_leases(),
        vec![Lease {
            job_id: 1,
            worker_id: 7,
            expires_at: 1_030
        }]
    );
    assert_eq!(scheduler.acquire(8, 1_030).unwrap().acquisition_attempts, 2);
    assert_eq!(scheduler.active_leases()[0].worker_id, 8);
}

#[test]
fn only_the_holder_completes_and_only_in_time() {
    let mut scheduler = queued(&[1]);
    scheduler.acquire(7, 1_000).unwrap();
    assert_eq!(
        scheduler.complete(2, 7, 1_000),
        Err(SchedulerError::JobNotFound(2))
    );
    assert_eq!(
        scheduler.complete(1, 8, 1_000),
        Err(SchedulerError::LeaseNotOwned {
            job_id: 1,
            worker_id: 8,
            owner: 7
        })
    );
    assert_eq!(
        scheduler.complete(1, 7, 1_030),
        Err(SchedulerError::LeaseAlreadyExpired {
            job_id: 1,
            expires_at: 1_030,
            now: 1_030
        })
    );
    assert_eq!(scheduler.renew_lease(1, 7, 1_020), Ok(1_050));
    assert_eq!(scheduler.complete(1, 7, 1_030), Ok(()));
    assert_eq!(
        scheduler.complete(1, 7, 1_030),
        Err(SchedulerError::JobNotPending {
            id: 1,
            state: JobState::Completed {
                worker_id: 7,
                completed_at: 1_030
            }
        })
    );
    assert_eq!(
        scheduler.renew_lease(1, 7, 1_030),
        Err(SchedulerError::JobNotFound(1))
    );
}

#[test]
fn active_workers_are_those_that_hold_leases() {
    let mut scheduler = queued(&[1, 1, 1]);
    assert_eq!(scheduler.metrics().active_workers, 0);
    scheduler.acquire(7, 100).unwrap();
    scheduler.acquire(7, 100).unwrap();
    scheduler.acquire(8, 100).unwrap();
    assert_eq!(scheduler.metrics().active_workers, 2);
    scheduler.complete(1, 7, 101).unwrap();
    assert_eq!(scheduler.metrics().active_workers, 2);
    scheduler.dead_letter(2, "gone", 101).unwrap();
    assert_eq!(scheduler.metrics().active_workers, 1);
    scheduler.complete(3, 8, 101).unwrap();
    assert_eq!(
        scheduler.metrics(),
        SchedulerMetrics {
            jobs_enqueued: 3,
            jobs_pending: 0,
            jobs_acquired: 3,
            jobs_completed: 2,
            jobs_dead_lettered: 1,
            lease_expirations: 0,
            lease_renewals: 0,
            active_workers: 0,
        }
    );
}

#[test]
fn jobs_claimed_too_often_are_given_up() {
    let mut scheduler = JobScheduler::new(SchedulerConfig {
        lease_ttl_secs: 10,
        renewal_buffer_secs: 1,
        max_acquisition_attempts: 1,
    });
    scheduler.enqueue("q".into(), 1, Vec::new(), 60, 0).unwrap();
    scheduler.acquire(1, 0).unwrap();
    assert_eq!(
        scheduler.acquire(2, 10),
        Err(SchedulerError::MaxAcquisitionAttemptsExceeded(1))
    );
    assert_eq!(
        scheduler.get_job(1).unwrap().state,
        JobState::DeadLettered {
            reason: "max acquisition attempts exceeded",
            at: 10
        }
    );
    assert_eq!(scheduler.metrics().lease_expirations, 1);
    assert_eq!(
        scheduler.acquire(2, 10),
        Err(SchedulerError::JobNotFound(0))
    );
    assert!(scheduler.get_job(2).is_none());
    assert_eq!(
        scheduler.dead_letter(2, "x", 10),
        Err(SchedulerError::JobNotFound(2))
    );
}

#[test]
fn history_keeps_the_most_recent_samples() {
    let mut buffer = HistoricalUsageBuffer::new(1);
    for at in 0..5 {
        buffer.push(sample(at, 100, 1));
    }
    // A buffer always has room for a trend.
    let kept: Vec<u64> = buffer.samples().iter().map(|s| s.timestamp_secs).collect();
    assert_eq!(kept, vec![2, 3, 4]);
    assert_eq!(buffer.trend_points(), vec![(0, 100), (1, 100), (2, 100)]);
    buffer.clear();
    assert!(buffer.is_empty());
    assert!(buffer.latest().is_none());
    assert!(buffer.oldest().is_none());
    assert_eq!(UsageSample::new(1, ResourceMetrics::new(20_000, 0, 0, 0, 0), 1, 0, 2, 3).active_units, 1);
    assert_eq!(ResourceMetrics::new(20_000, 1, 2, 3, 4).peak_saturation_bps(), 10_000);
}

#[test]
fn trend_needs_enough_samples_and_reached_thresholds_leave_no_runway() {
    let config = CapacityPlanningConfig::default();
    let mut buffer = HistoricalUsageBuffer::new(5);
    buffer.push(sample(0, 8_000, 1));
    buffer.push(sample(1, 8_100, 1));
    let fitted = estimate(Some(50), None);
    assert_eq!(
        CapacityForecaster::compute_trend(&buffer, &config, &fitted),
        Err(CapacityError::InsufficientHistory)
    );
    buffer.push(sample(2, 8_200, 1));
    assert_eq!(
        CapacityForecaster::compute_trend(&buffer, &config, &fitted),
        Ok(TrendProjection {
            holt_winters_forecast_bps: 10_000,
            runway_warning_secs: Some(0),
            runway_critical_secs: Some(50),
            runway_exhaustion_secs: None,
            is_accelerating: true,
        })
    );
}

#[test]
fn health_follows_saturation_latency_and_runway() {
    let config = CapacityPlanningConfig::default();
    let trend = |critical: u64, exhaustion: u64| TrendProjection {
        holt_winters_forecast_bps: 0,
        runway_warning_secs: None,
        runway_critical_secs: Some(critical),
        runway_exhaustion_secs: Some(exhaustion),
        is_accelerating: true,
    };
    let health = |saturation: u32, p99: u64, t: &TrendProjection| {
        CapacityForecaster::classify_health(&sample(0, saturation, p99), Some(t), &config)
    };
    let far = trend(172_800, 43_200);
    assert_eq!(health(7_999, 100, &far), CapacityHealthState::Healthy);
    assert_eq!(health(8_000, 100, &far), CapacityHealthState::Warning);
    assert_eq!(health(9_000, 100, &far), CapacityHealthState::Critical);
    assert_eq!(health(10_000, 100, &far), CapacityHealthState::Exhausted);
    assert_eq!(health(0, 101, &far), CapacityHealthState::Exhausted);
    assert_eq!(
        health(0, 100, &trend(172_799, 43_200)),
        CapacityHealthState::Warning
    );
    assert_eq!(
        health(0, 100, &trend(172_800, 43_199)),
        CapacityHealthState::Critical
    );
}

#[test]
fn recommendations_keep_to_the_bounds() {
    let config = CapacityPlanningConfig {
        min_units: 2,
        max_units: 6,
        ..CapacityPlanningConfig::default()
    };
    let action = |units: u32, saturation: u32, p99: u64| {
        let mut state = ServiceCapacityState::new("svc", units, 5);
        state.record_sample(sample(0, saturation, p99));
        CapacityForecaster::recommend_action(&state, None, &config, 1_000)
    };
    assert!(matches!(
        action(3, 9_001, 50),
        CapacityAction::ScaleUp { delta_units: 2, target_units: 5, .. }
    ));
    assert!(matches!(
        action(3, 9_000, 50),
        CapacityAction::ScaleUp { delta_units: 1, target_units: 4, .. }
    ));
    assert!(matches!(
        action(5, 9_500, 50),
        CapacityAction::ScaleUp { delta_units: 1, target_units: 6, .. }
    ));
    assert_eq!(action(6, 9_500, 50), CapacityAction::NoAction);
    assert!(matches!(
        action(3, 2_999, 49),
        CapacityAction::ScaleDown { delta_units: 1, target_units: 2, .. }
    ));
    assert_eq!(action(3, 2_999, 50), CapacityAction::NoAction);
    assert_eq!(action(2, 2_999, 49), CapacityAction::NoAction);
    assert!(matches!(
        action(3, 9_000, 101),
        CapacityAction::EmergencyThrottle { drop_percentage_bps: 2_500, .. }
    ));
    assert!(matches!(
        action(3, 10_000, 101),
        CapacityAction::EmergencyThrottle { drop_percentage_bps: 5_000, .. }
    ));
    let empty = ServiceCapacityState::new("svc", 3, 5);
    assert_eq!(
        CapacityForecaster::recommend_action(&empty, None, &config, 1_000),
        CapacityAction::NoAction
    );
}

#[test]
fn short_runway_adds_units_and_rising_trend_keeps_them() {
    let config = CapacityPlanningConfig::default();
    let mut state = ServiceCapacityState::new("svc", 3, 5);
    state.record_sample(sample(0, 1_000, 10));
    let mut trend = TrendProjection {
        holt_winters_forecast_bps: 0,
        runway_warning_secs: None,
        runway_critical_secs: Some(86_399),
        runway_exhaustion_secs: None,
        is_accelerating: true,
    };
    assert!(matches!(
        CapacityForecaster::recommend_action(&state, Some(&trend), &config, 0),
        CapacityAction::ScaleUp { delta_units: 1, .. }
    ));
    trend.runway_critical_secs = Some(86_400);
    assert_eq!(
        CapacityForecaster::recommend_action(&state, Some(&trend), &config, 0),
        CapacityAction::NoAction
    );
    trend.is_accelerating = false;
    assert!(matches!(
        CapacityForecaster::recommend_action(&state, Some(&trend), &config, 0),
        CapacityAction::ScaleDown { .. }
    ));
}

#[test]
fn promotion_starts_a_cooldown_that_a_reset_ends() {
    let mut registry = CapacityPlanningRegistry::new(CapacityPlanningConfig::default());
    assert_eq!(registry.config().cooldown_secs, 30);
    assert_eq!(
        registry.promote_canary_deployment("svc", &passing_canary(8), 100),
        Err(CapacityError::ServiceNotFound)
    );
    registry.register_service("svc", 4).unwrap();
    assert_eq!(
        registry.promote_canary_deployment("svc", &passing_canary(257), 100),
        Err(CapacityError::AllocationBoundsViolated)
    );
    assert_eq!(
        registry.promote_canary_deployment("svc", &passing_canary(8), 100),
        Ok(4)
    );
    assert_eq!(
        registry.promote_canary_deployment("svc", &passing_canary(9), 129),
        Err(CapacityError::CooldownActive)
    );
    registry.reset_cooldown("svc").unwrap();
    assert_eq!(
        registry.promote_canary_deployment("svc", &passing_canary(9), 129),
        Ok(8)
    );
    let state = registry.service_state("svc").unwrap();
    assert!(matches!(
        state.last_action,
        Some(CapacityAction::Rebalance { target_units: 9, .. })
    ));
    assert_eq!(
        registry.reset_cooldown("other"),
        Err(CapacityError::ServiceNotFound)
    );
}

#[test]
fn registration_is_bounded() {
    let mut registry = CapacityPlanningRegistry::default();
    assert_eq!(
        registry.register_service("svc", 0),
        Err(CapacityError::AllocationBoundsViolated)
    );
    for i in 0..MAX_TRACKED_SERVICES {
        registry.register_service(&format!("svc-{i}"), 1).unwrap();
    }
    assert_eq!(
        registry.register_service("more", 1),
        Err(CapacityError::TooManyServices)
    );
    assert_eq!(
        registry.record_sample("more", sample(0, 0, 0)),
        Err(CapacityError::ServiceNotFound)
    );
    assert_eq!(
        registry.evaluate_service("more", None, 0),
        Err(CapacityError::ServiceNotFound)
    );
    assert_eq!(
        registry.evaluate_service("svc-1", None, 0),
        Err(CapacityError::InsufficientHistory)
    );
}

#[test]
fn dashboard_counts_every_observed_service_once() {
    let mut registry = CapacityPlanningRegistry::default();
    for (name, saturation) in [("a", 1_000), ("b", 8_000), ("c", 9_000), ("d", 10_000)] {
        registry.register_service(name, 3).unwrap();
        for at in 0..3 {
            registry.record_sample(name, sample(at, saturation, 10)).unwrap();
        }
    }
    registry.register_service("e", 5).unwrap();
    let mut estimates: OrderedMap<String, TrendEstimate> = OrderedMap::new();
    estimates.insert("b".to_string(), estimate(None, Some(90_000)));
    estimates.insert("c".to_string(), estimate(None, Some(90_000)));
    let snapshot = registry.dashboard_snapshot(&estimates, 10);
    assert_eq!(snapshot.services_monitored, 5);
    assert_eq!(snapshot.total_units_allocated, 17);
    assert_eq!(snapshot.max_saturation_bps, 10_000);
    assert_eq!(snapshot.avg_saturation_bps, 28_000 / 5);
    assert_eq!(
        (
            snapshot.healthy_count,
            snapshot.warning_count,
            snapshot.critical_count,
            snapshot.exhausted_count
        ),
        (1, 1, 1, 1)
    );
    assert_eq!(snapshot.shortest_runway, Some(("b".to_string(), 90_000)));
    let reports = registry.evaluate_all(&estimates, 10);
    let names: Vec<&str> = reports.iter().map(|r| r.service.as_str()).collect();
    assert_eq!(names, vec!["a", "b", "c", "d"]);
    assert_eq!(reports[0].trend, None);
    assert_eq!(
        reports[1].trend.unwrap().runway_exhaustion_secs,
        Some(90_000)
    );
    assert_eq!(reports[3].health_state, CapacityHealthState::Exhausted);
    assert_eq!(registry.services().len(), 5);
    let empty = CapacityPlanningRegistry::default().dashboard_snapshot(&OrderedMap::new(), 0);
    assert_eq!(empty.avg_saturation_bps, 0);
    assert_eq!(empty.shortest_runway, None);
}

#[test]
fn canary_success_rate_is_capped() {
    let none = CapacityCanaryAnalysis::new("svc", 1, 0, 5, 0, 10_000, true);
    assert_eq!(none.success_rate_bps(), 0);
    let more = CapacityCanaryAnalysis::new("svc", 1, 1, 5, 0, 10_000, true);
    assert_eq!(more.success_rate_bps(), 10_000);
    assert_eq!(passing_canary(1).passes_release_gate(), Ok(()));
    let busy = CapacityCanaryAnalysis::new("svc", 1, u64::MAX, u64::MAX, 0, 10_000, true);
    assert_eq!(busy.success_rate_bps(), 10_000);
    assert_eq!(busy.passes_release_gate(), Ok(()));
}

#[test]
fn activating_a_flag_needs_a_review() {
    let mut flags = FeatureFlagSet::new();
    assert_eq!(
        flags.register(FeatureFlag::new(String::new())),
        Err(FlagError::EmptyFlagName)
    );
    for i in 0..MAX_FEATURE_FLAGS {
        flags.register(FeatureFlag::new(format!("f{i}"))).unwrap();
    }
    assert_eq!(
        flags.register(FeatureFlag::new("more".into())),
        Err(FlagError::TooManyFlags)
    );
    assert_eq!(
        flags.set_state("f1", FlagState::Canary, false),
        Err(FlagError::SecurityReviewRequired)
    );
    assert_eq!(flags.set_state("f1", FlagState::Canary, true), Ok(()));
    assert_eq!(flags.set_state("f2", FlagState::Enabled, true), Ok(()));
    assert_eq!(
        flags.set_state("more", FlagState::Disabled, true),
        Err(FlagError::FlagNotFound)
    );
    assert!(flags.is_active("f1", true) && !flags.is_active("f1", false));
    assert!(flags.is_active("f2", false) && !flags.is_active("more", true));
    assert_eq!(flags.enabled_count() + flags.canary_count(), 2);
    assert_eq!(flags.state("f1"), Some(FlagState::Canary));
    let sensor = CapacitySensor {
        utilisation_bps: 9_000,
        p99_latency_ms: 101,
        in_flight_requests: 1,
    };
    let metrics = dashboard_snapshot(&flags, &sensor, &DegradationConfig::default());
    assert_eq!(
        metrics.flags_enabled + metrics.flags_canary + metrics.flags_disabled,
        metrics.flags_total
    );
    assert!(metrics.soft_shedding_active && metrics.latency_violated);
    assert!(!metrics.hard_shedding_active);
}

#[test]
fn hard_shedding_beats_everything() {
    let mut flags = FeatureFlagSet::default();
    flags.register(FeatureFlag::new("f".into())).unwrap();
    flags.set_state("f", FlagState::Enabled, true).unwrap();
    let decide = |utilisation_bps: u32| {
        let sensor = CapacitySensor {
            utilisation_bps,
            p99_latency_ms: 1,
            in_flight_requests: 1,
        };
        DegradationPolicy::evaluate("f", false, &sensor, &flags, &DegradationConfig::default())
    };
    assert_eq!(decide(8_999), DegradationDecision::FullService);
    assert_eq!(decide(9_000), DegradationDecision::DegradedFallback);
    assert_eq!(decide(9_500), DegradationDecision::ShedLoad);
}

#[test]
fn full_rollout_needs_a_passing_canary() {
    let mut stages = DeploymentStageRegistry::default();
    stages
        .set_stage("f".into(), DeploymentStage::CanaryTenPercent)
        .unwrap();
    let failing = CanaryGate {
        requests: 10_000,
        successful_requests: 9_998,
        p99_latency_ms: 50,
        security_review_passed: true,
    };
    assert_eq!(
        stages.promote("f", Some(&failing)),
        Err(CanaryError::CanaryFailed)
    );
    let unreviewed = CanaryGate {
        successful_requests: 9_999,
        security_review_passed: false,
        ..failing
    };
    assert_eq!(
        stages.promote("f", Some(&unreviewed)),
        Err(CanaryError::SecurityReviewRequired)
    );
    let passing = CanaryGate {
        security_review_passed: true,
        ..unreviewed
    };
    assert_eq!(passing.success_rate_bps(), 9_999);
    let busy = CanaryGate {
        requests: u64::MAX,
        successful_requests: u64::MAX,
        ..passing
    };
    assert_eq!(busy.success_rate_bps(), 10_000);
    assert_eq!(busy.passes_release_gate(), Ok(()));
    assert_eq!(
        stages.promote("f", Some(&passing)),
        Ok(DeploymentStage::FullRollout)
    );
    assert_eq!(
        stages.snapshot(),
        vec![("f".to_string(), DeploymentStage::FullRollout)]
    );
}
