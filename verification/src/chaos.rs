//! Staging chaos engineering primitives.
//!
//! Keeps the chaos policy in code so staging automation, runbooks, and tests use the same safety
//! thresholds. It does not inject faults; it defines the canonical catalog and the gates that
//! staging orchestration must satisfy before and during an experiment.

use vstd::prelude::*;

verus! {

/// P99 latency ceiling for critical paths, in milliseconds.
pub const CRITICAL_PATH_P99_MS: u64 = 100;

/// Availability objective for staging chaos runs, in basis points (99.99%).
pub const AVAILABILITY_TARGET_BPS: u32 = 9_999;

/// Maximum canary error-budget burn permitted before rollback.
pub const MAX_ERROR_BUDGET_BURN_BPS: u32 = 1;

/// Minimum number of healthy zones required before running a zonal experiment.
pub const MIN_HEALTHY_ZONES: u8 = 2;

/// Minimum security-review approvals required before enabling a new fault.
pub const REQUIRED_SECURITY_APPROVALS: u8 = 2;

/// Maximum default experiment duration in seconds.
pub const MAX_EXPERIMENT_DURATION_SECS: u64 = 900;

/// System-wide staging service surfaces covered by chaos experiments.
#[derive(Copy, Clone, Debug, Eq, PartialEq)]
pub enum ServiceSurface {
    Consensus,
    Mempool,
    Attestation,
    Slashing,
    Settlement,
    Network,
    Observability,
}

/// Supported fault classes for staging chaos experiments.
#[derive(Copy, Clone, Debug, Eq, PartialEq)]
pub enum FaultKind {
    Latency,
    PacketLoss,
    PodKill,
    DependencyBlackhole,
    ClockSkew,
    ResourcePressure,
}

/// Rollout phase for blue-green and canary guarded experiments.
#[derive(Copy, Clone, Debug, Eq, PartialEq, PartialOrd, Ord)]
pub enum RolloutPhase {
    DesignReview,
    SecurityReview,
    BlueGreenShadow,
    CanaryOnePercent,
    CanaryTenPercent,
    FullStaging,
}

/// A single chaos experiment template.
#[derive(Copy, Clone, Debug, Eq, PartialEq)]
pub struct ChaosExperiment {
    pub id: &'static str,
    pub surface: ServiceSurface,
    pub fault: FaultKind,
    pub blast_radius_percent: u8,
    pub duration_secs: u64,
    pub rollback_metric: &'static str,
}

/// The experiment stays within staging safety bounds.
pub open spec fn within_bounds(e: ChaosExperiment) -> bool {
    0 < e.blast_radius_percent <= 10 && 0 < e.duration_secs <= MAX_EXPERIMENT_DURATION_SECS
}

impl ChaosExperiment {
    /// Returns true when the experiment stays within staging safety bounds.
    pub fn is_within_safety_bounds(&self) -> (r: bool)
        ensures
            r == within_bounds(*self),
    {
        self.blast_radius_percent > 0 && self.blast_radius_percent <= 10 && self.duration_secs > 0
            && self.duration_secs <= MAX_EXPERIMENT_DURATION_SECS
    }
}

/// Runtime health signals used to gate experiments and canary promotion.
#[derive(Copy, Clone, Debug, Eq, PartialEq)]
pub struct ChaosHealthSnapshot {
    pub critical_path_p99_ms: u64,
    pub availability_bps: u32,
    pub error_budget_burn_bps: u32,
    pub healthy_zones: u8,
    pub security_approvals: u8,
}

/// Staging is healthy enough to start or continue chaos testing.
pub open spec fn healthy_enough(s: ChaosHealthSnapshot) -> bool {
    &&& s.critical_path_p99_ms < CRITICAL_PATH_P99_MS
    &&& s.availability_bps >= AVAILABILITY_TARGET_BPS
    &&& s.error_budget_burn_bps <= MAX_ERROR_BUDGET_BURN_BPS
    &&& s.healthy_zones >= MIN_HEALTHY_ZONES
    &&& s.security_approvals >= REQUIRED_SECURITY_APPROVALS
}

impl ChaosHealthSnapshot {
    /// True when staging is healthy enough to start or continue chaos testing.
    pub fn passes_safety_gate(&self) -> (r: bool)
        ensures
            r == healthy_enough(*self),
    {
        self.critical_path_p99_ms < CRITICAL_PATH_P99_MS && self.availability_bps
            >= AVAILABILITY_TARGET_BPS && self.error_budget_burn_bps <= MAX_ERROR_BUDGET_BURN_BPS
            && self.healthy_zones >= MIN_HEALTHY_ZONES && self.security_approvals
            >= REQUIRED_SECURITY_APPROVALS
    }
}

/// An experiment of the catalog has this identifier, surface, fault, blast radius, duration and
/// rollback metric.
pub open spec fn is_experiment(
    e: ChaosExperiment,
    id: Seq<char>,
    surface: ServiceSurface,
    fault: FaultKind,
    blast_radius_percent: u8,
    duration_secs: u64,
    rollback_metric: Seq<char>,
) -> bool {
    &&& e.id@ == id
    &&& e.surface == surface
    &&& e.fault == fault
    &&& e.blast_radius_percent == blast_radius_percent
    &&& e.duration_secs == duration_secs
    &&& e.rollback_metric@ == rollback_metric
}

/// Some experiment exercises the surface.
pub open spec fn covers(experiments: Seq<ChaosExperiment>, surface: ServiceSurface) -> bool {
    exists|i: int| 0 <= i < experiments.len() && (#[trigger] experiments[i]).surface == surface
}

/// Canonical staging experiment catalog: every service surface once, each experiment within the
/// safety bounds.
pub fn staging_chaos_experiments() -> (r: [ChaosExperiment; 7])
    ensures
        is_experiment(
            r@[0],
            "consensus-latency-p99"@,
            ServiceSurface::Consensus,
            FaultKind::Latency,
            5,
            300,
            "consensus_critical_path_p99_ms"@,
        ),
        is_experiment(
            r@[1],
            "mempool-packet-loss"@,
            ServiceSurface::Mempool,
            FaultKind::PacketLoss,
            5,
            300,
            "mempool_tx_propagation_errors_total"@,
        ),
        is_experiment(
            r@[2],
            "attestation-pod-kill"@,
            ServiceSurface::Attestation,
            FaultKind::PodKill,
            10,
            180,
            "attestation_inclusion_delay_slots"@,
        ),
        is_experiment(
            r@[3],
            "slashing-dependency-blackhole"@,
            ServiceSurface::Slashing,
            FaultKind::DependencyBlackhole,
            5,
            300,
            "slashing_false_positive_total"@,
        ),
        is_experiment(
            r@[4],
            "settlement-resource-pressure"@,
            ServiceSurface::Settlement,
            FaultKind::ResourcePressure,
            5,
            600,
            "settlement_finalization_lag_seconds"@,
        ),
        is_experiment(
            r@[5],
            "network-clock-skew"@,
            ServiceSurface::Network,
            FaultKind::ClockSkew,
            5,
            180,
            "network_peer_disconnects_total"@,
        ),
        is_experiment(
            r@[6],
            "observability-blackhole"@,
            ServiceSurface::Observability,
            FaultKind::DependencyBlackhole,
            5,
            120,
            "trace_ingestion_gap_seconds"@,
        ),
        forall|i: int| 0 <= i < 7 ==> within_bounds(#[trigger] r@[i]),
        forall|s: ServiceSurface| #[trigger] covers(r@, s),
{
    let r: [ChaosExperiment; 7] = [
        ChaosExperiment {
            id: "consensus-latency-p99",
            surface: ServiceSurface::Consensus,
            fault: FaultKind::Latency,
            blast_radius_percent: 5,
            duration_secs: 300,
            rollback_metric: "consensus_critical_path_p99_ms",
        },
        ChaosExperiment {
            id: "mempool-packet-loss",
            surface: ServiceSurface::Mempool,
            fault: FaultKind::PacketLoss,
            blast_radius_percent: 5,
            duration_secs: 300,
            rollback_metric: "mempool_tx_propagation_errors_total",
        },
        ChaosExperiment {
            id: "attestation-pod-kill",
            surface: ServiceSurface::Attestation,
            fault: FaultKind::PodKill,
            blast_radius_percent: 10,
            duration_secs: 180,
            rollback_metric: "attestation_inclusion_delay_slots",
        },
        ChaosExperiment {
            id: "slashing-dependency-blackhole",
            surface: ServiceSurface::Slashing,
            fault: FaultKind::DependencyBlackhole,
            blast_radius_percent: 5,
            duration_secs: 300,
            rollback_metric: "slashing_false_positive_total",
        },
        ChaosExperiment {
            id: "settlement-resource-pressure",
            surface: ServiceSurface::Settlement,
            fault: FaultKind::ResourcePressure,
            blast_radius_percent: 5,
            duration_secs: 600,
            rollback_metric: "settlement_finalization_lag_seconds",
        },
        ChaosExperiment {
            id: "network-clock-skew",
            surface: ServiceSurface::Network,
            fault: FaultKind::ClockSkew,
            blast_radius_percent: 5,
            duration_secs: 180,
            rollback_metric: "network_peer_disconnects_total",
        },
        ChaosExperiment {
            id: "observability-blackhole",
            surface: ServiceSurface::Observability,
            fault: FaultKind::DependencyBlackhole,
            blast_radius_percent: 5,
            duration_secs: 120,
            rollback_metric: "trace_ingestion_gap_seconds",
        },
    ];
    proof {
        assert forall|s: ServiceSurface| #[trigger] covers(r@, s) by {
            let i: int = match s {
                ServiceSurface::Consensus => 0,
                ServiceSurface::Mempool => 1,
                ServiceSurface::Attestation => 2,
                ServiceSurface::Slashing => 3,
                ServiceSurface::Settlement => 4,
                ServiceSurface::Network => 5,
                ServiceSurface::Observability => 6,
            };
            assert(r@[i].surface == s);
        }
    }
    r
}

/// How far a phase is along the rollout.
pub open spec fn phase_rank(phase: RolloutPhase) -> int {
    match phase {
        RolloutPhase::DesignReview => 0,
        RolloutPhase::SecurityReview => 1,
        RolloutPhase::BlueGreenShadow => 2,
        RolloutPhase::CanaryOnePercent => 3,
        RolloutPhase::CanaryTenPercent => 4,
        RolloutPhase::FullStaging => 5,
    }
}

/// Returns the next rollout phase after the supplied canary phase succeeds; the last phase has no
/// successor but itself.
pub fn next_rollout_phase(phase: RolloutPhase) -> (r: RolloutPhase)
    ensures
        phase is FullStaging ==> r is FullStaging,
        !(phase is FullStaging) ==> phase_rank(r) == phase_rank(phase) + 1,
{
    match phase {
        RolloutPhase::DesignReview => RolloutPhase::SecurityReview,
        RolloutPhase::SecurityReview => RolloutPhase::BlueGreenShadow,
        RolloutPhase::BlueGreenShadow => RolloutPhase::CanaryOnePercent,
        RolloutPhase::CanaryOnePercent => RolloutPhase::CanaryTenPercent,
        RolloutPhase::CanaryTenPercent => RolloutPhase::FullStaging,
        RolloutPhase::FullStaging => RolloutPhase::FullStaging,
    }
}

/// An experiment is safe that reaches one to ten percent for one second to fifteen minutes.
pub proof fn law_safety_bounds_in_numbers(e: ChaosExperiment)
    ensures
        within_bounds(e) <==> 1 <= e.blast_radius_percent <= 10 && 1 <= e.duration_secs <= 900,
{
}

/// Experiments may run below 100 milliseconds at the tail, from 99.99 percent availability, up to one
/// basis point of burned error budget, from two healthy zones and from two approvals on.
pub proof fn law_safety_gate_in_numbers(s: ChaosHealthSnapshot)
    ensures
        healthy_enough(s) <==> s.critical_path_p99_ms < 100 && s.availability_bps >= 9_999
            && s.error_budget_burn_bps <= 1 && s.healthy_zones >= 2 && s.security_approvals >= 2,
{
}

/// The phases are taken in order, from the design review over the security review, the shadow and
/// the two canaries to all of staging; no two have the same rank.
pub proof fn law_phases_are_in_order(a: RolloutPhase, b: RolloutPhase)
    ensures
        phase_rank(RolloutPhase::DesignReview) < phase_rank(RolloutPhase::SecurityReview)
            < phase_rank(RolloutPhase::BlueGreenShadow) < phase_rank(RolloutPhase::CanaryOnePercent)
            < phase_rank(RolloutPhase::CanaryTenPercent) < phase_rank(RolloutPhase::FullStaging),
        phase_rank(a) == phase_rank(b) ==> a == b,
{
}

} // verus!
