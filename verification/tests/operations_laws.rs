use verinode_core::chaos::{
    next_rollout_phase, staging_chaos_experiments, ChaosExperiment, FaultKind, RolloutPhase,
    ServiceSurface,
};
use verinode_core::config::{
    validate_config, validate_reload, ConfigError, ConfigManager, DeploymentConfig,
    MonitoringConfig, ServiceConfig, SystemConfig, MAX_SERVICES,
};
use verinode_core::config_audit::{
    ConfigAuditor, ConfigBaseline, ConfigEntry, ConfigSeverity, DeploymentStage, DriftKind,
    RuntimeSnapshot, MAX_DRIFT_RECORDS,
};
use verinode_core::incident_response::{
    build_incident_plan, build_pagerduty_event, choose_deployment_gate, IncidentSeverity,
    IncidentSignal, PagerDutyAction,
};

fn service(name: &str) -> ServiceConfig {
    ServiceConfig {
        name: name.into(),
        enabled: true,
        critical_path_timeout_ms: 50,
        max_inflight_requests: 10,
        hot_reload: true,
    }
}

fn system() -> SystemConfig {
    SystemConfig {
        version: 1,
        availability_target_bps: 9_999,
        critical_path_p99_ms: 100,
        security_review_required: true,
        services: vec![service("a"), service("b")],
        monitoring: MonitoringConfig::default(),
        deployment: DeploymentConfig::default(),
    }
}

fn rejected(change: fn(&mut SystemConfig)) -> ConfigError {
    let mut config = system();
    change(&mut config);
    validate_config(&config).unwrap_err()
}

fn signal(severity: IncidentSeverity) -> IncidentSignal {
    IncidentSignal {
        service: "mempool".into(),
        summary: "latency".into(),
        severity,
        metric: "p99".into(),
        observed_value: 120,
        threshold: 100,
    }
}

#[test]
fn default_configuration_is_valid() {
    assert_eq!(validate_config(&system()), Ok(()));
    let monitoring = MonitoringConfig::default();
    assert!(monitoring.metrics_enabled && monitoring.alerting_enabled);
    assert_eq!(monitoring.dashboard_refresh_seconds, 30);
    assert_eq!(monitoring.p99_latency_alert_ms, 100);
    let deployment = DeploymentConfig::default();
    assert!(deployment.blue_green_enabled);
    assert_eq!(deployment.canary_percent, 5);
    assert_eq!(deployment.canary_error_budget_bps, 100);
}

#[test]
fn each_configuration_error_has_its_cause() {
    assert_eq!(
        rejected(|c| {
            for i in 0..MAX_SERVICES {
                c.services.push(service(&format!("s{i}")));
            }
        }),
        ConfigError::TooManyServices
    );
    assert_eq!(
        rejected(|c| c.availability_target_bps = 9_998),
        ConfigError::InvalidAvailabilityTarget
    );
    assert_eq!(
        rejected(|c| c.availability_target_bps = 10_001),
        ConfigError::InvalidAvailabilityTarget
    );
    assert_eq!(
        rejected(|c| c.critical_path_p99_ms = 0),
        ConfigError::CriticalPathTargetTooHigh
    );
    assert_eq!(
        rejected(|c| c.critical_path_p99_ms = 101),
        ConfigError::CriticalPathTargetTooHigh
    );
    assert_eq!(
        rejected(|c| c.critical_path_p99_ms = 99),
        ConfigError::CriticalPathTargetTooHigh
    );
    assert_eq!(
        rejected(|c| c.security_review_required = false),
        ConfigError::SecurityReviewMissing
    );
    assert_eq!(
        rejected(|c| c.monitoring.alerting_enabled = false),
        ConfigError::MonitoringDisabled
    );
    assert_eq!(
        rejected(|c| c.monitoring.dashboard_refresh_seconds = 301),
        ConfigError::InvalidDashboardRefresh
    );
    assert_eq!(
        rejected(|c| c.deployment.canary_percent = 101),
        ConfigError::InvalidCanaryPercent
    );
    assert_eq!(
        rejected(|c| c.deployment.canary_error_budget_bps = 10_001),
        ConfigError::InvalidCanaryErrorBudget
    );
    assert_eq!(
        rejected(|c| c.services[1].name = String::new()),
        ConfigError::EmptyServiceName
    );
    // The limit is in bytes: 33 two-byte characters are one character too many.
    assert_eq!(
        rejected(|c| c.services[1].name = "\u{e9}".repeat(33)),
        ConfigError::ServiceNameTooLong
    );
    assert_eq!(
        rejected(|c| c.services[1].name = "a".into()),
        ConfigError::DuplicateServiceName
    );
    assert_eq!(
        rejected(|c| c.services[0].critical_path_timeout_ms = 101),
        ConfigError::ServiceTimeoutExceedsTarget
    );
    assert_eq!(
        rejected(|c| c.services[0].max_inflight_requests = 0),
        ConfigError::ZeroInflightLimit
    );
    let mut longest = system();
    longest.services[1].name = "\u{e9}".repeat(32);
    assert_eq!(validate_config(&longest), Ok(()));
}

#[test]
fn reload_records_what_changed_and_only_moves_forward() {
    let mut manager = ConfigManager::new(system()).unwrap();
    let mut next = system();
    assert_eq!(
        manager.reload(next.clone()),
        Err(ConfigError::NonMonotonicVersion)
    );
    next.version = 1_002;
    assert_eq!(
        validate_reload(manager.active(), &next),
        Err(ConfigError::VersionJumpTooLarge)
    );
    next.version = 1_001;
    next.services[1].enabled = false;
    next.services.push(service("c"));
    next.deployment.canary_percent = 20;
    let event = manager.reload(next.clone()).unwrap();
    assert_eq!(event.previous_version, 1);
    assert_eq!(event.current_version, 1_001);
    assert_eq!(event.changed_services, vec!["b".to_string(), "c".to_string()]);
    assert_eq!(event.canary_percent, 20);
    assert_eq!(manager.active(), &next);
    assert_eq!(manager.history(), &[event]);
    next.version = 1_002;
    next.services[0].hot_reload = false;
    assert_eq!(
        manager.reload(next),
        Err(ConfigError::HotReloadDisabled("a".into()))
    );
    assert_eq!(manager.active().version, 1_001);
}

#[test]
fn baseline_digest_covers_the_sorted_entries() {
    let baseline = ConfigBaseline::new(
        7,
        DeploymentStage::Production,
        99,
        vec![
            ConfigEntry::new("b", "x", b"3", ConfigSeverity::Warning),
            ConfigEntry::new("a", "y", b"2", ConfigSeverity::Critical),
            ConfigEntry::new("a", "x", b"1", ConfigSeverity::Informational),
        ],
    );
    let expected: [u8; 32] = [
        0x23, 0xfa, 0x46, 0x46, 0x12, 0x69, 0xc7, 0x9b, 0x4e, 0x75, 0xbc, 0xff,
        0x82, 0xd3, 0x06, 0x18, 0xfa, 0x51, 0xa4, 0x97, 0xf7, 0x64, 0x2a, 0x8c,
        0x4b, 0x46, 0x7f, 0x19, 0xab, 0x38, 0xcf, 0xb9,
    ];
    assert_eq!(baseline.digest, expected);
    assert_eq!(baseline.entries[0].key, "x");
    assert_eq!(baseline.entries[2].service, "b");
}

#[test]
fn audit_finds_each_kind_of_drift() {
    let entry = |s: &str, k: &str, v: &[u8], severity: ConfigSeverity| {
        ConfigEntry::new(s, k, v, severity)
    };
    let baseline = ConfigBaseline::new(
        1,
        DeploymentStage::Canary,
        10,
        vec![
            entry("a", "1", b"v", ConfigSeverity::Critical),
            entry("a", "2", b"v", ConfigSeverity::Warning),
            entry("a", "3", b"v", ConfigSeverity::Informational),
            entry("a", "4", b"v", ConfigSeverity::Informational),
        ],
    );
    let snapshot = RuntimeSnapshot::new(
        20,
        vec![
            entry("b", "9", b"v", ConfigSeverity::Warning),
            entry("a", "4", b"v", ConfigSeverity::Informational),
            entry("a", "3", b"v", ConfigSeverity::Critical),
            entry("a", "2", b"w", ConfigSeverity::Informational),
        ],
    );
    let report = ConfigAuditor::audit(&baseline, &snapshot);
    let found: Vec<(String, DriftKind, ConfigSeverity)> = report
        .records
        .iter()
        .map(|r| (r.key.clone(), r.kind, r.severity))
        .collect();
    assert_eq!(
        found,
        vec![
            ("1".into(), DriftKind::Missing, ConfigSeverity::Critical),
            ("2".into(), DriftKind::ValueChanged, ConfigSeverity::Warning),
            ("3".into(), DriftKind::SeverityChanged, ConfigSeverity::Critical),
            ("9".into(), DriftKind::Unexpected, ConfigSeverity::Warning),
        ]
    );
    assert_eq!(report.drift_count, 4);
    assert_eq!(report.critical_drift_count, 2);
    assert_eq!(report.observed_at_epoch, 20);
    assert_eq!(report.baseline_digest, baseline.digest);
    assert!(!report.is_rollout_safe());
    assert!(report.should_alert());
}

#[test]
fn exchanging_the_sides_exchanges_missing_and_unexpected() {
    let one = vec![
        ConfigEntry::new("a", "1", b"v", ConfigSeverity::Critical),
        ConfigEntry::new("a", "2", b"v", ConfigSeverity::Warning),
        ConfigEntry::new("c", "3", b"v", ConfigSeverity::Informational),
    ];
    let two = vec![
        ConfigEntry::new("a", "2", b"w", ConfigSeverity::Critical),
        ConfigEntry::new("b", "4", b"v", ConfigSeverity::Warning),
        ConfigEntry::new("c", "3", b"v", ConfigSeverity::Warning),
    ];
    let audit = |expected: &[ConfigEntry], observed: &[ConfigEntry]| {
        let baseline = ConfigBaseline::new(1, DeploymentStage::Blue, 0, expected.to_vec());
        ConfigAuditor::audit(&baseline, &RuntimeSnapshot::new(1, observed.to_vec())).records
    };
    let forth = audit(&one, &two);
    let mut back = audit(&two, &one);
    let identities: Vec<(String, String)> = forth
        .iter()
        .map(|r| (r.service.clone(), r.key.clone()))
        .collect();
    let mut sorted = identities.clone();
    sorted.sort();
    sorted.dedup();
    assert_eq!(identities, sorted);
    for record in &mut back {
        record.kind = match record.kind {
            DriftKind::Missing => DriftKind::Unexpected,
            DriftKind::Unexpected => DriftKind::Missing,
            kind => kind,
        };
    }
    assert_eq!(forth, back);
    assert_eq!(forth.len(), 4);
}

#[test]
fn baseline_ignores_the_order_of_its_entries() {
    let mut entries = vec![
        ConfigEntry::new("b", "1", b"x", ConfigSeverity::Critical),
        ConfigEntry::new("a", "2", b"y", ConfigSeverity::Warning),
        ConfigEntry::new("a", "1", b"z", ConfigSeverity::Informational),
    ];
    let baseline = ConfigBaseline::new(1, DeploymentStage::Blue, 0, entries.clone());
    entries.reverse();
    assert_eq!(
        ConfigBaseline::new(1, DeploymentStage::Blue, 0, entries),
        baseline
    );
}

#[test]
fn configuration_does_not_drift_from_itself() {
    let entries = vec![
        ConfigEntry::new("b", "1", b"v", ConfigSeverity::Critical),
        ConfigEntry::new("a", "1", b"v", ConfigSeverity::Warning),
    ];
    let baseline = ConfigBaseline::new(1, DeploymentStage::Blue, 0, entries.clone());
    let report = ConfigAuditor::audit(&baseline, &RuntimeSnapshot::new(1, entries));
    assert_eq!(report.drift_count, 0);
    assert!(report.is_rollout_safe());
    assert!(!report.should_alert());
}

#[test]
fn drift_beyond_the_record_limit_is_counted() {
    let entries: Vec<ConfigEntry> = (0..MAX_DRIFT_RECORDS + 5)
        .map(|i| ConfigEntry::new("s", &format!("k{i:03}"), b"v", ConfigSeverity::Critical))
        .collect();
    let baseline = ConfigBaseline::new(1, DeploymentStage::Green, 0, entries);
    let report = ConfigAuditor::audit(&baseline, &RuntimeSnapshot::new(1, Vec::new()));
    assert_eq!(report.records.len(), MAX_DRIFT_RECORDS);
    assert_eq!(report.drift_count as usize, MAX_DRIFT_RECORDS + 5);
    assert_eq!(report.critical_drift_count as usize, MAX_DRIFT_RECORDS + 5);
    assert_eq!(report.records[63].key, "k063");
}

#[test]
fn severe_incident_is_paged_and_held() {
    let plan = build_incident_plan(signal(IncidentSeverity::Sev1), "key");
    let event = plan.pagerduty_event.unwrap();
    assert_eq!(event.event_action, PagerDutyAction::Trigger);
    assert_eq!(event.dedup_key, "verinode:mempool:p99:sev1");
    assert_eq!(event.routing_key, "key");
    assert_eq!(event.source, "verinode-core");
    assert_eq!(event.severity, "sev1");
    assert_eq!(event.component, "mempool");
    assert_eq!(event.group, "protocol");
    assert_eq!(
        event.custom_details,
        vec![
            ("metric".to_string(), "p99".to_string()),
            ("observed_value".to_string(), "120".to_string()),
            ("threshold".to_string(), "100".to_string()),
            ("p99_budget_ms".to_string(), "100".to_string()),
            ("availability_target_bps".to_string(), "9999".to_string()),
        ]
    );
    assert!(!plan.deployment_gate.promote);
    assert_eq!(plan.deployment_gate.canary_percent, 1);
    assert_eq!(
        plan.monitoring_queries[0],
        "latency_p99_ms{service=\"mempool\"}"
    );
    assert_eq!(plan.runbook.len(), 3);
    assert_eq!(
        plan.runbook[0].command,
        "pd incident acknowledge --dedup-key verinode:mempool:p99:sev1"
    );
    assert_eq!(
        plan.runbook[1].rollback_command,
        "deploy rollback --service mempool --to blue"
    );
    assert!(plan.runbook.iter().all(|step| step.critical));
}

#[test]
fn mild_incident_is_not_paged() {
    let plan = build_incident_plan(signal(IncidentSeverity::Sev3), "key");
    assert_eq!(plan.pagerduty_event, None);
    assert!(plan.deployment_gate.promote);
    assert_eq!(plan.deployment_gate.canary_percent, 10);
    assert_eq!(
        plan.deployment_gate.reason,
        "canary healthy; promote green environment"
    );
    assert!(!plan.runbook[0].critical);
    assert_eq!(plan.signal, signal(IncidentSeverity::Sev3));
}

#[test]
fn promotion_needs_a_healthy_canary() {
    assert!(choose_deployment_gate(IncidentSeverity::Sev2, 9_995, 0).promote);
    assert!(!choose_deployment_gate(IncidentSeverity::Sev2, 9_994, 0).promote);
    assert!(!choose_deployment_gate(IncidentSeverity::Sev2, 10_000, 1).promote);
    assert!(!choose_deployment_gate(IncidentSeverity::Sev1, 10_000, 0).promote);
    let event = build_pagerduty_event(&signal(IncidentSeverity::Sev4), "k", PagerDutyAction::Resolve);
    assert_eq!(event.event_action.as_str(), "resolve");
    assert_eq!(PagerDutyAction::Acknowledge.as_str(), "acknowledge");
    assert_eq!(IncidentSeverity::Sev4.as_str(), "sev4");
    assert!(IncidentSeverity::Sev2.is_page_required());
    assert!(!IncidentSeverity::Sev4.is_page_required());
}

#[test]
fn dedup_key_does_not_depend_on_the_values() {
    let mut other = signal(IncidentSeverity::Sev2);
    other.observed_value = 7;
    other.threshold = 8;
    other.summary = "other".into();
    let a = build_pagerduty_event(&signal(IncidentSeverity::Sev2), "k", PagerDutyAction::Trigger);
    let b = build_pagerduty_event(&other, "k", PagerDutyAction::Trigger);
    assert_eq!(a.dedup_key, b.dedup_key);
}

#[test]
fn experiments_are_bounded_and_ordered() {
    let all = staging_chaos_experiments();
    assert_eq!(all.len(), 7);
    assert_eq!(all[2].id, "attestation-pod-kill");
    assert_eq!(all[2].fault, FaultKind::PodKill);
    assert_eq!(all[2].blast_radius_percent, 10);
    assert_eq!(all[6].rollback_metric, "trace_ingestion_gap_seconds");
    let too_wide = ChaosExperiment {
        blast_radius_percent: 11,
        ..all[0]
    };
    assert!(!too_wide.is_within_safety_bounds());
    let too_long = ChaosExperiment {
        duration_secs: 901,
        ..all[0]
    };
    assert!(!too_long.is_within_safety_bounds());
    assert_eq!(all[0].surface, ServiceSurface::Consensus);
    assert_eq!(
        next_rollout_phase(RolloutPhase::CanaryTenPercent),
        RolloutPhase::FullStaging
    );
}
