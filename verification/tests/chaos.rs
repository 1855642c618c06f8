use verinode_core::chaos::{
    AVAILABILITY_TARGET_BPS, ChaosExperiment, ChaosHealthSnapshot, MAX_ERROR_BUDGET_BURN_BPS,
    MIN_HEALTHY_ZONES, REQUIRED_SECURITY_APPROVALS, RolloutPhase, ServiceSurface,
    next_rollout_phase, staging_chaos_experiments,
};

#[test]
fn catalog_covers_every_service_surface_with_safe_blast_radius() {
    let surfaces = [
        ServiceSurface::Consensus,
        ServiceSurface::Mempool,
        ServiceSurface::Attestation,
        ServiceSurface::Slashing,
        ServiceSurface::Settlement,
        ServiceSurface::Network,
        ServiceSurface::Observability,
    ];

    for surface in surfaces {
        assert!(
            staging_chaos_experiments()
                .iter()
                .any(|experiment| experiment.surface == surface),
            "missing chaos experiment for {surface:?}"
        );
    }

    assert!(staging_chaos_experiments()
        .iter()
        .all(ChaosExperiment::is_within_safety_bounds));
}

#[test]
fn safety_gate_enforces_latency_availability_security_and_canary_burn() {
    let healthy = ChaosHealthSnapshot {
        critical_path_p99_ms: 99,
        availability_bps: AVAILABILITY_TARGET_BPS,
        error_budget_burn_bps: MAX_ERROR_BUDGET_BURN_BPS,
        healthy_zones: MIN_HEALTHY_ZONES,
        security_approvals: REQUIRED_SECURITY_APPROVALS,
    };
    assert!(healthy.passes_safety_gate());

    assert!(!ChaosHealthSnapshot {
        critical_path_p99_ms: 100,
        ..healthy
    }
    .passes_safety_gate());
    assert!(!ChaosHealthSnapshot {
        availability_bps: 9_998,
        ..healthy
    }
    .passes_safety_gate());
    assert!(!ChaosHealthSnapshot {
        error_budget_burn_bps: 2,
        ..healthy
    }
    .passes_safety_gate());
    assert!(!ChaosHealthSnapshot {
        healthy_zones: 1,
        ..healthy
    }
    .passes_safety_gate());
    assert!(!ChaosHealthSnapshot {
        security_approvals: 1,
        ..healthy
    }
    .passes_safety_gate());
}

#[test]
fn rollout_phase_advances_through_blue_green_and_canary() {
    assert_eq!(
        next_rollout_phase(RolloutPhase::DesignReview),
        RolloutPhase::SecurityReview
    );
    assert_eq!(
        next_rollout_phase(RolloutPhase::SecurityReview),
        RolloutPhase::BlueGreenShadow
    );
    assert_eq!(
        next_rollout_phase(RolloutPhase::BlueGreenShadow),
        RolloutPhase::CanaryOnePercent
    );
    assert_eq!(
        next_rollout_phase(RolloutPhase::CanaryOnePercent),
        RolloutPhase::CanaryTenPercent
    );
    assert_eq!(
        next_rollout_phase(RolloutPhase::CanaryTenPercent),
        RolloutPhase::FullStaging
    );
    assert_eq!(
        next_rollout_phase(RolloutPhase::FullStaging),
        RolloutPhase::FullStaging
    );
}
