//! Capacity planning with historical usage trending.
//!
//! Resource usage tracking, trend and runway projection, automated sizing recommendations and the
//! canary release gate, as functions of plain values, so that monitoring agents and deployment
//! gates share the same logic. The statistical estimate of a trend is an input: see
//! [`TrendEstimate`].
//!
//! * Critical-path latency target: P99 of at most 100 ms ([`CRITICAL_PATH_P99_MS`]).
//! * Availability target: 99.99% uptime ([`AVAILABILITY_TARGET_BPS`]).
//! * A canary is promoted only after a security review.
//! * Consecutive scaling actions are separated by a cooldown.

use std::collections::VecDeque;
use vstd::prelude::*;

use crate::arith::{greatest, least, scaled};
use crate::ordered_map::{lemma_listing_mapped, listing, mapped, OrderedMap};
use crate::seqs::lemma_filter_step;

verus! {

/// P99 latency target for critical-path operations, in milliseconds.
pub const CRITICAL_PATH_P99_MS: u64 = 100;

/// Availability objective expressed in basis points: 99.99% (9_999 / 10_000).
pub const AVAILABILITY_TARGET_BPS: u32 = 9_999;

/// Canary deployment success rate required for promotion, in basis points (99.99%).
pub const CANARY_SUCCESS_TARGET_BPS: u32 = 9_999;

/// Default warning saturation threshold in basis points: 80.00%.
pub const DEFAULT_WARNING_THRESHOLD_BPS: u32 = 8_000;

/// Default critical saturation threshold in basis points: 90.00%.
pub const DEFAULT_CRITICAL_THRESHOLD_BPS: u32 = 9_000;

/// Exhaustion saturation threshold in basis points: 100.00%.
pub const DEFAULT_EXHAUSTION_THRESHOLD_BPS: u32 = 10_000;

/// Default minimum allocated capacity units (nodes / shards / worker threads).
pub const DEFAULT_MIN_ALLOCATED_UNITS: u32 = 1;

/// Default maximum allocated capacity units.
pub const DEFAULT_MAX_ALLOCATED_UNITS: u32 = 256;

/// Default cooldown window between consecutive capacity adjustments, in seconds.
pub const DEFAULT_REACTION_COOLDOWN_SECS: u64 = 30;

/// Default number of historical samples retained in the ring buffer.
pub const DEFAULT_HISTORY_BUFFER_CAPACITY: usize = 120;

/// Maximum number of services tracked concurrently by the registry.
pub const MAX_TRACKED_SERVICES: usize = 256;

/// Minimum historical samples required to execute statistical trend projection.
pub const MIN_SAMPLES_FOR_TREND: usize = 3;

/// Target capacity headroom maintained during automated scale-up (20.00%).
pub const DEFAULT_TARGET_HEADROOM_BPS: u32 = 2_000;

/// Runway to exhaustion below which a service is critical: 12 hours.
const CRITICAL_RUNWAY_SECS: u64 = 43_200;

/// Runway to the critical threshold below which a service is in warning: 48 hours.
const WARNING_RUNWAY_SECS: u64 = 172_800;

/// Runway to the critical threshold below which units are added: 24 hours.
const SCALE_UP_RUNWAY_SECS: u64 = 86_400;

/// Saturation below which units may be removed: 30.00%.
const SCALE_DOWN_SATURATION_BPS: u32 = 3_000;

/// Headroom deficit above which two units are added at once.
const LARGE_DEFICIT_BPS: u32 = 3_000;

/// Logical service name identifier (e.g. `"consensus"`, `"mempool"`, `"pg_pool"`).
pub type ServiceName = String;

/// A utilization of at most 100%.
pub open spec fn bounded_bps(bps: u32) -> u32 {
    if bps <= 10_000 {
        bps
    } else {
        10_000
    }
}

fn bound_bps(bps: u32) -> (r: u32)
    ensures
        r == bounded_bps(bps),
{
    if bps <= 10_000 {
        bps
    } else {
        10_000
    }
}

fn larger(a: u32, b: u32) -> (r: u32)
    ensures
        r == greatest(a as int, b as int),
{
    if a >= b {
        a
    } else {
        b
    }
}

/// Snapshot of individual resource utilization dimensions for a service.
///
/// All utilization values are expressed in basis points (0..10_000).
#[derive(Clone, Copy, Debug, Eq, PartialEq)]
pub struct ResourceMetrics {
    /// CPU utilization in basis points (0..10_000).
    pub cpu_utilization_bps: u32,
    /// Memory (RAM) utilization in basis points (0..10_000).
    pub memory_utilization_bps: u32,
    /// Storage / IOPS utilization in basis points (0..10_000).
    pub iops_utilization_bps: u32,
    /// Network bandwidth utilization in basis points (0..10_000).
    pub network_utilization_bps: u32,
    /// Worker thread / connection pool saturation in basis points (0..10_000).
    pub worker_saturation_bps: u32,
}

/// The dimensions of a snapshot.
pub open spec fn dimensions(m: ResourceMetrics) -> Seq<u32> {
    seq![
        m.cpu_utilization_bps,
        m.memory_utilization_bps,
        m.iops_utilization_bps,
        m.network_utilization_bps,
        m.worker_saturation_bps,
    ]
}

/// The saturation of the bottleneck.
pub open spec fn peak_of(m: ResourceMetrics) -> u32 {
    greatest(
        greatest(
            greatest(
                greatest(m.cpu_utilization_bps as int, m.memory_utilization_bps as int),
                m.iops_utilization_bps as int,
            ),
            m.network_utilization_bps as int,
        ),
        m.worker_saturation_bps as int,
    ) as u32
}

impl ResourceMetrics {
    /// Creates a new resource metrics snapshot.
    pub fn new(
        cpu_bps: u32,
        memory_bps: u32,
        iops_bps: u32,
        network_bps: u32,
        worker_bps: u32,
    ) -> (r: Self)
        ensures
            r == (ResourceMetrics {
                cpu_utilization_bps: bounded_bps(cpu_bps),
                memory_utilization_bps: bounded_bps(memory_bps),
                iops_utilization_bps: bounded_bps(iops_bps),
                network_utilization_bps: bounded_bps(network_bps),
                worker_saturation_bps: bounded_bps(worker_bps),
            }),
    {
        ResourceMetrics {
            cpu_utilization_bps: bound_bps(cpu_bps),
            memory_utilization_bps: bound_bps(memory_bps),
            iops_utilization_bps: bound_bps(iops_bps),
            network_utilization_bps: bound_bps(network_bps),
            worker_saturation_bps: bound_bps(worker_bps),
        }
    }

    /// Computes the peak saturation across all resource dimensions.
    ///
    /// The bottleneck resource dictates the overall system saturation.
    pub fn peak_saturation_bps(&self) -> (r: u32)
        ensures
            r == peak_of(*self),
            dimensions(*self).contains(r),
            forall|i: int| 0 <= i < 5 ==> #[trigger] dimensions(*self)[i] <= r,
    {
        let r: u32 = larger(
            larger(
                larger(
                    larger(self.cpu_utilization_bps, self.memory_utilization_bps),
                    self.iops_utilization_bps,
                ),
                self.network_utilization_bps,
            ),
            self.worker_saturation_bps,
        );
        proof {
            let d = dimensions(*self);
            assert(d[0] == self.cpu_utilization_bps && d[1] == self.memory_utilization_bps && d[2]
                == self.iops_utilization_bps && d[3] == self.network_utilization_bps && d[4]
                == self.worker_saturation_bps);
        }
        r
    }

    /// Computes the arithmetic mean utilization across all resource dimensions.
    pub fn mean_utilization_bps(&self) -> (r: u32)
        ensures
            r == least(
                (self.cpu_utilization_bps + self.memory_utilization_bps + self.iops_utilization_bps
                    + self.network_utilization_bps + self.worker_saturation_bps) / 5,
                10_000,
            ),
    {
        let sum: u64 = self.cpu_utilization_bps as u64 + self.memory_utilization_bps as u64
            + self.iops_utilization_bps as u64 + self.network_utilization_bps as u64
            + self.worker_saturation_bps as u64;
        let mean: u64 = sum / 5;
        if mean <= 10_000 {
            mean as u32
        } else {
            10_000
        }
    }
}

/// A point-in-time observation of a service's capacity consumption.
#[derive(Clone, Debug, Eq, PartialEq)]
pub struct UsageSample {
    /// Wall-clock timestamp of the sample (seconds since Unix epoch).
    pub timestamp_secs: u64,
    /// Detailed multi-dimensional resource metrics.
    pub metrics: ResourceMetrics,
    /// Observed P99 latency on the critical path, in milliseconds.
    pub p99_latency_ms: u64,
    /// Currently allocated capacity units (instances, pods, or shards).
    pub active_units: u32,
    /// Total request throughput in queries per second (QPS).
    pub throughput_qps: u64,
    /// Cumulative error count observed during this sample window.
    pub error_count: u64,
}

/// The saturation that a sample shows.
pub open spec fn saturation_of(s: UsageSample) -> u32 {
    peak_of(s.metrics)
}

impl UsageSample {
    /// Creates a new usage sample.
    pub fn new(
        timestamp_secs: u64,
        metrics: ResourceMetrics,
        p99_latency_ms: u64,
        active_units: u32,
        throughput_qps: u64,
        error_count: u64,
    ) -> (r: Self)
        ensures
            r == (UsageSample {
                timestamp_secs,
                metrics,
                p99_latency_ms,
                active_units: if active_units == 0 {
                    1
                } else {
                    active_units
                },
                throughput_qps,
                error_count,
            }),
    {
        UsageSample {
            timestamp_secs,
            metrics,
            p99_latency_ms,
            active_units: larger(active_units, 1),
            throughput_qps,
            error_count,
        }
    }

    /// Returns the governing peak saturation in basis points.
    pub fn saturation_bps(&self) -> (r: u32)
        ensures
            r == saturation_of(*self),
    {
        self.metrics.peak_saturation_bps()
    }
}

/// Fixed-capacity ring buffer storing timestamped usage samples for trending.
#[derive(Clone, Debug)]
pub struct HistoricalUsageBuffer {
    capacity: usize,
    samples: VecDeque<UsageSample>,
}

/// What a buffer holds: the samples in chronological order.
pub struct History {
    pub capacity: usize,
    pub samples: Seq<UsageSample>,
}

/// The capacity of a buffer: enough for a trend.
pub open spec fn usable_capacity(capacity: usize) -> usize {
    if capacity < MIN_SAMPLES_FOR_TREND {
        MIN_SAMPLES_FOR_TREND
    } else {
        capacity
    }
}

/// The last `n` samples, or all where there are fewer.
pub open spec fn most_recent(samples: Seq<UsageSample>, n: int) -> Seq<UsageSample> {
    if samples.len() <= n {
        samples
    } else {
        samples.skip(samples.len() - n)
    }
}

/// The buffer after a sample.
pub open spec fn pushed(h: History, sample: UsageSample) -> History {
    History { samples: most_recent(h.samples.push(sample), h.capacity as int), ..h }
}

/// The buffer after some samples.
pub open spec fn pushed_all(h: History, samples: Seq<UsageSample>) -> History
    decreases samples.len(),
{
    if samples.len() == 0 {
        h
    } else {
        pushed(pushed_all(h, samples.drop_last()), samples.last())
    }
}

/// The buffer can hold a trend and holds no more than it may.
pub open spec fn history_ok(h: History) -> bool {
    MIN_SAMPLES_FOR_TREND <= h.capacity && h.samples.len() <= h.capacity
}

/// A buffer holds the most recent of all the samples that it was given, in their order.
pub proof fn law_history_is_the_most_recent(h: History, samples: Seq<UsageSample>)
    requires
        history_ok(h),
    ensures
        pushed_all(h, samples) == (History {
            samples: most_recent(h.samples + samples, h.capacity as int),
            ..h
        }),
        history_ok(pushed_all(h, samples)),
    decreases samples.len(),
{
    let all = h.samples + samples;
    let n = h.capacity as int;
    if samples.len() == 0 {
        assert(all =~= h.samples);
    } else {
        let init = samples.drop_last();
        law_history_is_the_most_recent(h, init);
        let before = most_recent(h.samples + init, n);
        assert(most_recent(before.push(samples.last()), n) =~= most_recent(all, n));
    }
}

/// The seconds from the first sample to another, and the saturation of that one.
pub open spec fn trend_point(samples: Seq<UsageSample>, i: int) -> (u64, u32) {
    (
        if samples[i].timestamp_secs >= samples[0].timestamp_secs {
            (samples[i].timestamp_secs - samples[0].timestamp_secs) as u64
        } else {
            0
        },
        saturation_of(samples[i]),
    )
}

impl View for HistoricalUsageBuffer {
    type V = History;

    closed spec fn view(&self) -> History {
        History { capacity: self.capacity, samples: self.samples@ }
    }
}

impl HistoricalUsageBuffer {
    /// The buffer can hold a trend and holds no more than it may.
    pub open spec fn wf(&self) -> bool {
        history_ok(self@)
    }

    /// Creates an empty buffer with the specified maximum sample capacity.
    pub fn new(capacity: usize) -> (r: Self)
        ensures
            r.wf(),
            r@ == (History { capacity: usable_capacity(capacity), samples: Seq::empty() }),
    {
        let usable: usize = if capacity < MIN_SAMPLES_FOR_TREND {
            MIN_SAMPLES_FOR_TREND
        } else {
            capacity
        };
        HistoricalUsageBuffer { capacity: usable, samples: VecDeque::new() }
    }

    /// Appends a new sample to the buffer, evicting the oldest sample if at capacity.
    pub fn push(&mut self, sample: UsageSample)
        requires
            old(self).wf(),
        ensures
            final(self).wf(),
            final(self)@ == pushed(old(self)@, sample),
    {
        let ghost before = self.samples@;
        if self.samples.len() >= self.capacity {
            self.samples.pop_front();
        }
        self.samples.push_back(sample);
        proof {
            assert(self.samples@ =~= most_recent(before.push(sample), self.capacity as int));
        }
    }

    /// Returns a slice/reference to all stored samples in chronological order.
    pub fn samples(&self) -> (r: &VecDeque<UsageSample>)
        ensures
            r@ == self@.samples,
    {
        &self.samples
    }

    /// Returns the most recent sample, if available.
    pub fn latest(&self) -> (r: Option<&UsageSample>)
        ensures
            r is Some <==> self@.samples.len() > 0,
            r matches Some(s) ==> *s == self@.samples.last(),
    {
        let n: usize = self.samples.len();
        if n == 0 {
            None
        } else {
            Some(&self.samples[n - 1])
        }
    }

    /// Returns the oldest recorded sample, if available.
    pub fn oldest(&self) -> (r: Option<&UsageSample>)
        ensures
            r is Some <==> self@.samples.len() > 0,
            r matches Some(s) ==> *s == self@.samples[0],
    {
        if self.samples.len() == 0 {
            None
        } else {
            Some(&self.samples[0])
        }
    }

    /// Returns the number of samples stored in the buffer.
    pub fn len(&self) -> (r: usize)
        ensures
            r == self@.samples.len(),
    {
        self.samples.len()
    }

    /// Returns `true` if the buffer contains no samples.
    pub fn is_empty(&self) -> (r: bool)
        ensures
            r == (self@.samples.len() == 0),
    {
        self.samples.len() == 0
    }

    /// Clears all recorded samples from the buffer.
    pub fn clear(&mut self)
        ensures
            final(self)@ == (History { samples: Seq::empty(), ..old(self)@ }),
            old(self).wf() ==> final(self).wf(),
    {
        self.samples.clear();
    }

    /// The points to which a trend is fitted: for each sample the seconds since the first one and
    /// the saturation.
    pub fn trend_points(&self) -> (r: Vec<(u64, u32)>)
        ensures
            r@ == Seq::new(self@.samples.len(), |i: int| trend_point(self@.samples, i)),
    {
        let n: usize = self.samples.len();
        let mut points: Vec<(u64, u32)> = Vec::new();
        let mut i: usize = 0;
        while i < n
            invariant
                n == self.samples@.len(),
                i <= n,
                points@.len() == i,
                forall|j: int|
                    0 <= j < i ==> #[trigger] points@[j] == trend_point(self.samples@, j),
            decreases n - i,
        {
            let first: u64 = self.samples[0].timestamp_secs;
            let sample: &UsageSample = &self.samples[i];
            points.push((sample.timestamp_secs.saturating_sub(first), sample.saturation_bps()));
            i = i + 1;
        }
        assert(points@ =~= Seq::new(self@.samples.len(), |i: int| trend_point(self@.samples, i)));
        points
    }
}

/// Statistical estimate of a service's saturation, fitted to the points of its history.
#[derive(Clone, Copy, Debug, Eq, PartialEq)]
pub struct TrendEstimate {
    /// Exponentially smoothed forecast for the next evaluation window (basis points).
    pub forecast_bps: u32,
    /// Seconds until the trend reaches the warning threshold, if it rises towards it.
    pub warning_secs: Option<u64>,
    /// Seconds until the trend reaches the critical threshold, if it rises towards it.
    pub critical_secs: Option<u64>,
    /// Seconds until the trend reaches the exhaustion threshold, if it rises towards it.
    pub exhaustion_secs: Option<u64>,
    /// Whether the fitted slope is positive.
    pub is_accelerating: bool,
}

/// Trend projection derived from historical usage samples.
#[derive(Clone, Copy, Debug, Eq, PartialEq)]
pub struct TrendProjection {
    /// Exponentially smoothed forecast for the next evaluation window (basis points).
    pub holt_winters_forecast_bps: u32,
    /// Estimated time remaining until reaching the warning threshold (80%), in seconds.
    pub runway_warning_secs: Option<u64>,
    /// Estimated time remaining until reaching the critical threshold (90%), in seconds.
    pub runway_critical_secs: Option<u64>,
    /// Estimated time remaining until total resource exhaustion (100%), in seconds.
    pub runway_exhaustion_secs: Option<u64>,
    /// Whether usage trending is strictly accelerating (positive slope).
    pub is_accelerating: bool,
}

/// Coarse operational health state of a service's capacity.
#[derive(Clone, Copy, Debug, Eq, PartialEq, Ord, PartialOrd)]
pub enum CapacityHealthState {
    /// Operating normally with ample runway and P99 latency within target.
    Healthy,
    /// Elevated utilization (>= 80%) or runway under 48 hours; scaling recommended.
    Warning,
    /// Critical saturation (>= 90%) or runway under 12 hours; prompt action required.
    Critical,
    /// Resource exhaustion (100%) or critical-path P99 latency target violation.
    Exhausted,
}

/// How severe a health state is.
pub open spec fn severity(h: CapacityHealthState) -> int {
    match h {
        CapacityHealthState::Healthy => 0,
        CapacityHealthState::Warning => 1,
        CapacityHealthState::Critical => 2,
        CapacityHealthState::Exhausted => 3,
    }
}

/// Recommended capacity action produced by the planning engine.
#[derive(Clone, Debug, Eq, PartialEq)]
pub enum CapacityAction {
    /// No scaling action required; capacity is balanced.
    NoAction,
    /// Provision additional units to relieve rising saturation.
    ScaleUp {
        /// Number of units to add.
        delta_units: u32,
        /// Target total units after scale-up.
        target_units: u32,
        /// Human-readable rationale.
        reason: String,
    },
    /// Deprovision excess units to reduce idle overhead safely.
    ScaleDown {
        /// Number of units to remove.
        delta_units: u32,
        /// Target total units after scale-down.
        target_units: u32,
        /// Human-readable rationale.
        reason: String,
    },
    /// Rebalance allocations across nodes/shards without altering net capacity.
    Rebalance {
        /// Target units configuration.
        target_units: u32,
        /// Human-readable rationale.
        reason: String,
    },
    /// Emergency shed or throttle due to imminent exhaustion or SLA violation.
    EmergencyThrottle {
        /// Percentage of traffic to shed (in basis points).
        drop_percentage_bps: u32,
        /// Human-readable rationale.
        reason: String,
    },
}

/// What an action says.
pub enum ActionModel {
    NoAction,
    ScaleUp { delta_units: u32, target_units: u32, reason: Seq<char> },
    ScaleDown { delta_units: u32, target_units: u32, reason: Seq<char> },
    Rebalance { target_units: u32, reason: Seq<char> },
    EmergencyThrottle { drop_percentage_bps: u32, reason: Seq<char> },
}

impl View for CapacityAction {
    type V = ActionModel;

    open spec fn view(&self) -> ActionModel {
        match *self {
            CapacityAction::NoAction => ActionModel::NoAction,
            CapacityAction::ScaleUp { delta_units, target_units, reason } => ActionModel::ScaleUp {
                delta_units,
                target_units,
                reason: reason@,
            },
            CapacityAction::ScaleDown { delta_units, target_units, reason } =>
                ActionModel::ScaleDown { delta_units, target_units, reason: reason@ },
            CapacityAction::Rebalance { target_units, reason } => ActionModel::Rebalance {
                target_units,
                reason: reason@,
            },
            CapacityAction::EmergencyThrottle { drop_percentage_bps, reason } =>
                ActionModel::EmergencyThrottle { drop_percentage_bps, reason: reason@ },
        }
    }
}

/// Errors returned by capacity planning and canary validation routines.
#[derive(Clone, Copy, Debug, Eq, PartialEq)]
pub enum CapacityError {
    /// Service is not registered in the capacity planning registry.
    ServiceNotFound,
    /// Service already registered.
    ServiceAlreadyExists,
    /// Registry capacity exceeded (maximum 256 services).
    TooManyServices,
    /// Fewer than `MIN_SAMPLES_FOR_TREND` samples available for analysis.
    InsufficientHistory,
    /// Cooldown window is currently active; action deferred.
    CooldownActive,
    /// Scaling action violates min/max unit boundaries.
    AllocationBoundsViolated,
    /// Security review is mandatory before canary promotion.
    SecurityReviewRequired,
    /// Canary availability fell below the 99.99% technical bound.
    AvailabilityTargetViolated,
    /// Canary P99 latency exceeded the 100 ms technical bound.
    LatencyTargetViolated,
    /// Canary request success rate fell below the 99.99% promotion threshold.
    CanaryValidationFailed,
    /// Sizing parameters or thresholds are invalid.
    InvalidConfiguration,
}

/// Canary analysis validating a capacity change before full-fleet promotion.
#[derive(Clone, Debug, Eq, PartialEq)]
pub struct CapacityCanaryAnalysis {
    /// Logical service name evaluated.
    pub service: ServiceName,
    /// Candidate capacity units evaluated in canary.
    pub candidate_units: u32,
    /// Total requests routed to the canary during evaluation.
    pub requests_evaluated: u64,
    /// Requests completing successfully within SLA bounds.
    pub requests_successful: u64,
    /// Observed P99 latency on the canary instances, in milliseconds.
    pub observed_p99_ms: u64,
    /// Availability observed in canary window, in basis points (e.g. 9_999).
    pub availability_bps: u32,
    /// Mandatory security review sign-off indicator.
    pub security_review_passed: bool,
}

/// The success rate of a canary, in basis points; no requests are no success.
pub open spec fn canary_success_bps(c: CapacityCanaryAnalysis) -> int {
    if c.requests_evaluated == 0 {
        0
    } else {
        least(c.requests_successful * 10_000 / c.requests_evaluated as int, 10_000)
    }
}

/// Why a canary may not be released, if it may not.
pub open spec fn gate_error(c: CapacityCanaryAnalysis) -> Option<CapacityError> {
    if !c.security_review_passed {
        Some(CapacityError::SecurityReviewRequired)
    } else if c.availability_bps < AVAILABILITY_TARGET_BPS {
        Some(CapacityError::AvailabilityTargetViolated)
    } else if c.observed_p99_ms > CRITICAL_PATH_P99_MS {
        Some(CapacityError::LatencyTargetViolated)
    } else if canary_success_bps(c) < CANARY_SUCCESS_TARGET_BPS {
        Some(CapacityError::CanaryValidationFailed)
    } else {
        None
    }
}

impl CapacityCanaryAnalysis {
    /// Creates a new canary analysis record.
    pub fn new(
        service: &str,
        candidate_units: u32,
        requests_evaluated: u64,
        requests_successful: u64,
        observed_p99_ms: u64,
        availability_bps: u32,
        security_review_passed: bool,
    ) -> (r: Self)
        ensures
            r.service@ == service@,
            r == (CapacityCanaryAnalysis {
                service: r.service,
                candidate_units,
                requests_evaluated,
                requests_successful,
                observed_p99_ms,
                availability_bps,
                security_review_passed,
            }),
    {
        CapacityCanaryAnalysis {
            service: service.to_owned(),
            candidate_units,
            requests_evaluated,
            requests_successful,
            observed_p99_ms,
            availability_bps,
            security_review_passed,
        }
    }

    /// Computes the request success rate in basis points (0..10_000).
    pub fn success_rate_bps(&self) -> (r: u32)
        ensures
            r == canary_success_bps(*self),
    {
        if self.requests_evaluated == 0 {
            return 0;
        }
        let rate: u64 = scaled(self.requests_successful, 10_000, self.requests_evaluated);
        if rate <= 10_000 {
            rate as u32
        } else {
            10_000
        }
    }

    /// Verifies all release-gate criteria.
    ///
    /// * Security review MUST be completed (`security_review_passed == true`).
    /// * Availability MUST meet or exceed 99.99% ([`AVAILABILITY_TARGET_BPS`]).
    /// * Critical path latency MUST NOT exceed 100 ms ([`CRITICAL_PATH_P99_MS`]).
    /// * Request success rate MUST meet or exceed 99.99% ([`CANARY_SUCCESS_TARGET_BPS`]).
    pub fn passes_release_gate(&self) -> (r: Result<(), CapacityError>)
        ensures
            r == match gate_error(*self) {
                Some(e) => Err::<(), CapacityError>(e),
                None => Ok(()),
            },
    {
        if !self.security_review_passed {
            return Err(CapacityError::SecurityReviewRequired);
        }
        if self.availability_bps < AVAILABILITY_TARGET_BPS {
            return Err(CapacityError::AvailabilityTargetViolated);
        }
        if self.observed_p99_ms > CRITICAL_PATH_P99_MS {
            return Err(CapacityError::LatencyTargetViolated);
        }
        if self.success_rate_bps() < CANARY_SUCCESS_TARGET_BPS {
            return Err(CapacityError::CanaryValidationFailed);
        }
        Ok(())
    }
}

/// Tunable parameters for trend forecasting and capacity recommendations.
#[derive(Clone, Copy, Debug, Eq, PartialEq)]
pub struct CapacityPlanningConfig {
    /// Saturation threshold for `Warning` state (default 8,000 bps = 80%).
    pub warning_threshold_bps: u32,
    /// Saturation threshold for `Critical` state (default 9,000 bps = 90%).
    pub critical_threshold_bps: u32,
    /// Saturation threshold for `Exhausted` state (default 10,000 bps = 100%).
    pub exhaustion_threshold_bps: u32,
    /// Minimum permissible unit allocation for a service.
    pub min_units: u32,
    /// Maximum permissible unit allocation for a service.
    pub max_units: u32,
    /// Minimum cooldown between consecutive resizing actions (seconds).
    pub cooldown_secs: u64,
    /// Maximum history buffer capacity per service.
    pub history_window_capacity: usize,
    /// Target headroom maintained during automated scale-up (in bps).
    pub target_headroom_bps: u32,
}

impl Default for CapacityPlanningConfig {
    fn default() -> (r: Self)
        ensures
            r == default_config(),
    {
        CapacityPlanningConfig {
            warning_threshold_bps: DEFAULT_WARNING_THRESHOLD_BPS,
            critical_threshold_bps: DEFAULT_CRITICAL_THRESHOLD_BPS,
            exhaustion_threshold_bps: DEFAULT_EXHAUSTION_THRESHOLD_BPS,
            min_units: DEFAULT_MIN_ALLOCATED_UNITS,
            max_units: DEFAULT_MAX_ALLOCATED_UNITS,
            cooldown_secs: DEFAULT_REACTION_COOLDOWN_SECS,
            history_window_capacity: DEFAULT_HISTORY_BUFFER_CAPACITY,
            target_headroom_bps: DEFAULT_TARGET_HEADROOM_BPS,
        }
    }
}

/// The default configuration.
pub open spec fn default_config() -> CapacityPlanningConfig {
    CapacityPlanningConfig {
        warning_threshold_bps: DEFAULT_WARNING_THRESHOLD_BPS,
        critical_threshold_bps: DEFAULT_CRITICAL_THRESHOLD_BPS,
        exhaustion_threshold_bps: DEFAULT_EXHAUSTION_THRESHOLD_BPS,
        min_units: DEFAULT_MIN_ALLOCATED_UNITS,
        max_units: DEFAULT_MAX_ALLOCATED_UNITS,
        cooldown_secs: DEFAULT_REACTION_COOLDOWN_SECS,
        history_window_capacity: DEFAULT_HISTORY_BUFFER_CAPACITY,
        target_headroom_bps: DEFAULT_TARGET_HEADROOM_BPS,
    }
}

/// Tracks state, sample history, and scale actions for a specific service.
#[derive(Clone, Debug)]
pub struct ServiceCapacityState {
    /// Service identifier.
    pub service: ServiceName,
    /// Currently assigned capacity units.
    pub current_units: u32,
    /// Ring buffer storing past telemetry samples.
    pub history: HistoricalUsageBuffer,
    /// Timestamp of the last applied scaling action.
    pub last_action_at: Option<u64>,
    /// Last applied capacity action.
    pub last_action: Option<CapacityAction>,
}

/// What is tracked of a service.
pub struct ServiceModel {
    pub service: Seq<char>,
    pub current_units: u32,
    pub history: History,
    pub last_action_at: Option<u64>,
    pub last_action: Option<ActionModel>,
}

/// The state of a service that has just been taken up.
pub open spec fn fresh_service(
    service: Seq<char>,
    initial_units: u32,
    history_capacity: usize,
) -> ServiceModel {
    ServiceModel {
        service,
        current_units: if initial_units == 0 {
            1
        } else {
            initial_units
        },
        history: History { capacity: usable_capacity(history_capacity), samples: Seq::empty() },
        last_action_at: None,
        last_action: None,
    }
}

impl View for ServiceCapacityState {
    type V = ServiceModel;

    open spec fn view(&self) -> ServiceModel {
        ServiceModel {
            service: self.service@,
            current_units: self.current_units,
            history: self.history@,
            last_action_at: self.last_action_at,
            last_action: match self.last_action {
                Some(action) => Some(action@),
                None => None,
            },
        }
    }
}

impl ServiceCapacityState {
    /// The history is in order.
    pub open spec fn wf(&self) -> bool {
        self.history.wf()
    }

    /// Initializes a new service capacity state.
    pub fn new(service: &str, initial_units: u32, history_capacity: usize) -> (r: Self)
        ensures
            r.wf(),
            r@ == fresh_service(service@, initial_units, history_capacity),
    {
        ServiceCapacityState {
            service: service.to_owned(),
            current_units: larger(initial_units, 1),
            history: HistoricalUsageBuffer::new(history_capacity),
            last_action_at: None,
            last_action: None,
        }
    }

    /// Records a new telemetry sample.
    pub fn record_sample(&mut self, sample: UsageSample)
        requires
            old(self).wf(),
        ensures
            final(self).wf(),
            final(self)@ == (ServiceModel {
                history: pushed(old(self)@.history, sample),
                ..old(self)@
            }),
            final(self).service == old(self).service,
    {
        self.history.push(sample);
    }
}

/// Seconds until a saturation is reached: none are left where it has been reached already.
pub open spec fn runway(current_bps: u32, target_bps: u32, projected: Option<u64>) -> Option<u64> {
    if current_bps >= target_bps {
        Some(0)
    } else {
        projected
    }
}

/// The trend projected from a history and the estimate fitted to it.
pub open spec fn projection(
    h: History,
    config: CapacityPlanningConfig,
    estimate: TrendEstimate,
) -> TrendProjection {
    let current = saturation_of(h.samples.last());
    TrendProjection {
        holt_winters_forecast_bps: bounded_bps(estimate.forecast_bps),
        runway_warning_secs: runway(current, config.warning_threshold_bps, estimate.warning_secs),
        runway_critical_secs: runway(
            current,
            config.critical_threshold_bps,
            estimate.critical_secs,
        ),
        runway_exhaustion_secs: runway(
            current,
            config.exhaustion_threshold_bps,
            estimate.exhaustion_secs,
        ),
        is_accelerating: estimate.is_accelerating,
    }
}

/// The trend of a service, where there are enough samples and an estimate.
pub open spec fn trend_of(
    h: History,
    config: CapacityPlanningConfig,
    estimate: Option<TrendEstimate>,
) -> Option<TrendProjection> {
    match estimate {
        Some(e) => if h.samples.len() < MIN_SAMPLES_FOR_TREND {
            None
        } else {
            Some(projection(h, config, e))
        },
        None => None,
    }
}

/// Whether a runway is known and below a limit.
pub open spec fn runs_out_within(secs: Option<u64>, limit: int) -> bool {
    secs is Some && secs->0 < limit
}

/// The health of a service by its latest sample and its trend: the most severe state of which
/// there is a sign.
pub open spec fn health_of(
    sample: UsageSample,
    trend: Option<TrendProjection>,
    config: CapacityPlanningConfig,
) -> CapacityHealthState {
    let saturation = saturation_of(sample);
    if sample.p99_latency_ms > CRITICAL_PATH_P99_MS || saturation
        >= config.exhaustion_threshold_bps {
        CapacityHealthState::Exhausted
    } else if saturation >= config.critical_threshold_bps || (trend is Some && runs_out_within(
        trend->0.runway_exhaustion_secs,
        43_200,
    )) {
        CapacityHealthState::Critical
    } else if saturation >= config.warning_threshold_bps || (trend is Some && runs_out_within(
        trend->0.runway_critical_secs,
        172_800,
    )) {
        CapacityHealthState::Warning
    } else {
        CapacityHealthState::Healthy
    }
}

/// Whether the last action is too recent for another.
pub open spec fn cooling_down(
    last_action_at: Option<u64>,
    config: CapacityPlanningConfig,
    now: u64,
) -> bool {
    last_action_at matches Some(at) && now < at + config.cooldown_secs && config.cooldown_secs > 0
}

/// Whether units should be added.
pub open spec fn needs_scale_up(
    sample: UsageSample,
    trend: Option<TrendProjection>,
    config: CapacityPlanningConfig,
) -> bool {
    ||| saturation_of(sample) >= config.warning_threshold_bps
    ||| sample.p99_latency_ms > CRITICAL_PATH_P99_MS
    ||| trend is Some && runs_out_within(trend->0.runway_critical_secs, 86_400)
}

/// Whether a unit may be removed.
pub open spec fn safe_scale_down(sample: UsageSample, trend: Option<TrendProjection>) -> bool {
    &&& saturation_of(sample) < 3_000
    &&& sample.p99_latency_ms < CRITICAL_PATH_P99_MS / 2
    &&& !(trend is Some && trend->0.is_accelerating)
}

/// The units to add, before the limit: two where the headroom is much too small.
pub open spec fn units_wanted(saturation: u32, config: CapacityPlanningConfig) -> int {
    if least(saturation + config.target_headroom_bps, u32::MAX as int)
        - config.warning_threshold_bps > 3_000 {
        2
    } else {
        1
    }
}

/// The action recommended for a service with a sample.
pub open spec fn sized_action(
    sample: UsageSample,
    current_units: u32,
    trend: Option<TrendProjection>,
    config: CapacityPlanningConfig,
) -> ActionModel {
    let saturation = saturation_of(sample);
    if sample.p99_latency_ms > CRITICAL_PATH_P99_MS && saturation
        >= config.critical_threshold_bps {
        ActionModel::EmergencyThrottle {
            drop_percentage_bps: if saturation >= config.exhaustion_threshold_bps {
                5_000
            } else {
                2_500
            },
            reason: "P99 latency exceeded 100ms technical bound under critical saturation"@,
        }
    } else if needs_scale_up(sample, trend, config) {
        if current_units < config.max_units {
            let target = least(
                current_units + units_wanted(saturation, config),
                config.max_units as int,
            ) as u32;
            ActionModel::ScaleUp {
                delta_units: (target - current_units) as u32,
                target_units: target,
                reason: "Proactive scale-up to maintain 20% headroom and prevent SLA breaches"@,
            }
        } else {
            ActionModel::NoAction
        }
    } else if safe_scale_down(sample, trend) && current_units > config.min_units {
        ActionModel::ScaleDown {
            delta_units: 1,
            target_units: (current_units - 1) as u32,
            reason: "Under-utilization detected (<30% saturation); safe capacity reclamation"@,
        }
    } else {
        ActionModel::NoAction
    }
}

/// The action recommended for a service: none during a cooldown and none without a sample.
pub open spec fn action_of(
    s: ServiceModel,
    trend: Option<TrendProjection>,
    config: CapacityPlanningConfig,
    now: u64,
) -> ActionModel {
    if cooling_down(s.last_action_at, config, now) || s.history.samples.len() == 0 {
        ActionModel::NoAction
    } else {
        sized_action(s.history.samples.last(), s.current_units, trend, config)
    }
}

/// Stateless forecasting engine for trending and sizing.
pub struct CapacityForecaster;

impl CapacityForecaster {
    /// Projects a trend from historical usage samples and the estimate fitted to them.
    pub fn compute_trend(
        buffer: &HistoricalUsageBuffer,
        config: &CapacityPlanningConfig,
        estimate: &TrendEstimate,
    ) -> (r: Result<TrendProjection, CapacityError>)
        ensures
            r == if buffer@.samples.len() < MIN_SAMPLES_FOR_TREND {
                Err::<TrendProjection, CapacityError>(CapacityError::InsufficientHistory)
            } else {
                Ok(projection(buffer@, *config, *estimate))
            },
    {
        if buffer.len() < MIN_SAMPLES_FOR_TREND {
            return Err(CapacityError::InsufficientHistory);
        }
        let current: u32 = match buffer.latest() {
            Some(sample) => sample.saturation_bps(),
            None => 0,
        };
        Ok(
            TrendProjection {
                holt_winters_forecast_bps: bound_bps(estimate.forecast_bps),
                runway_warning_secs: Self::calculate_runway(
                    current,
                    config.warning_threshold_bps,
                    estimate.warning_secs,
                ),
                runway_critical_secs: Self::calculate_runway(
                    current,
                    config.critical_threshold_bps,
                    estimate.critical_secs,
                ),
                runway_exhaustion_secs: Self::calculate_runway(
                    current,
                    config.exhaustion_threshold_bps,
                    estimate.exhaustion_secs,
                ),
                is_accelerating: estimate.is_accelerating,
            },
        )
    }

    /// Seconds to reach a target saturation, given those that the trend projects.
    fn calculate_runway(current_bps: u32, target_bps: u32, projected: Option<u64>) -> (r: Option<
        u64,
    >)
        ensures
            r == runway(current_bps, target_bps, projected),
    {
        if current_bps >= target_bps {
            return Some(0);
        }
        projected
    }

    /// Whether a runway is known and below a limit.
    fn runs_out(secs: Option<u64>, limit: u64) -> (r: bool)
        ensures
            r == runs_out_within(secs, limit as int),
    {
        match secs {
            Some(s) => s < limit,
            None => false,
        }
    }

    /// Evaluates capacity health state based on latest sample, trend, and SLA targets.
    pub fn classify_health(
        sample: &UsageSample,
        trend: Option<&TrendProjection>,
        config: &CapacityPlanningConfig,
    ) -> (r: CapacityHealthState)
        ensures
            r == health_of(*sample, trend_value(trend), *config),
    {
        let saturation: u32 = sample.saturation_bps();
        if sample.p99_latency_ms > CRITICAL_PATH_P99_MS {
            return CapacityHealthState::Exhausted;
        }
        if saturation >= config.exhaustion_threshold_bps {
            return CapacityHealthState::Exhausted;
        }
        if saturation >= config.critical_threshold_bps {
            return CapacityHealthState::Critical;
        }
        if let Some(t) = trend {
            if Self::runs_out(t.runway_exhaustion_secs, CRITICAL_RUNWAY_SECS) {
                return CapacityHealthState::Critical;
            }
        }
        if saturation >= config.warning_threshold_bps {
            return CapacityHealthState::Warning;
        }
        if let Some(t) = trend {
            if Self::runs_out(t.runway_critical_secs, WARNING_RUNWAY_SECS) {
                return CapacityHealthState::Warning;
            }
        }
        CapacityHealthState::Healthy
    }

    /// Computes automated sizing recommendation adhering to cooldown and bounds.
    pub fn recommend_action(
        state: &ServiceCapacityState,
        trend: Option<&TrendProjection>,
        config: &CapacityPlanningConfig,
        now: u64,
    ) -> (r: CapacityAction)
        ensures
            r@ == action_of(state@, trend_value(trend), *config, now),
    {
        if let Some(last_at) = state.last_action_at {
            if now.saturating_sub(last_at) < config.cooldown_secs {
                return CapacityAction::NoAction;
            }
        }
        let latest: &UsageSample = match state.history.latest() {
            Some(s) => s,
            None => {
                return CapacityAction::NoAction;
            },
        };
        let saturation: u32 = latest.saturation_bps();
        let p99: u64 = latest.p99_latency_ms;
        let current_units: u32 = state.current_units;
        if p99 > CRITICAL_PATH_P99_MS && saturation >= config.critical_threshold_bps {
            let drop_rate: u32 = if saturation >= config.exhaustion_threshold_bps {
                5_000
            } else {
                2_500
            };
            return CapacityAction::EmergencyThrottle {
                drop_percentage_bps: drop_rate,
                reason: "P99 latency exceeded 100ms technical bound under critical saturation".to_owned(),
            };
        }
        let short_runway: bool = match trend {
            Some(t) => Self::runs_out(t.runway_critical_secs, SCALE_UP_RUNWAY_SECS),
            None => false,
        };
        if saturation >= config.warning_threshold_bps || p99 > CRITICAL_PATH_P99_MS
            || short_runway {
            if current_units < config.max_units {
                let headroom_deficit: u32 = saturation.saturating_add(
                    config.target_headroom_bps,
                ).saturating_sub(config.warning_threshold_bps);
                let delta: u32 = if headroom_deficit > LARGE_DEFICIT_BPS {
                    2
                } else {
                    1
                };
                let target: u32 = if delta <= config.max_units - current_units {
                    current_units + delta
                } else {
                    config.max_units
                };
                return CapacityAction::ScaleUp {
                    delta_units: target - current_units,
                    target_units: target,
                    reason: "Proactive scale-up to maintain 20% headroom and prevent SLA breaches".to_owned(),
                };
            }
            return CapacityAction::NoAction;
        }
        let rising: bool = match trend {
            Some(t) => t.is_accelerating,
            None => false,
        };
        if saturation < SCALE_DOWN_SATURATION_BPS && p99 < CRITICAL_PATH_P99_MS / 2 && !rising
            && current_units > config.min_units {
            return CapacityAction::ScaleDown {
                delta_units: 1,
                target_units: current_units - 1,
                reason: "Under-utilization detected (<30% saturation); safe capacity reclamation".to_owned(),
            };
        }
        CapacityAction::NoAction
    }
}

/// The trend behind a reference.
pub open spec fn trend_value(trend: Option<&TrendProjection>) -> Option<TrendProjection> {
    match trend {
        Some(t) => Some(*t),
        None => None,
    }
}

/// Comprehensive health and capacity planning report for a single service.
#[derive(Clone, Debug, Eq, PartialEq)]
pub struct ServiceCapacityReport {
    /// Service identifier.
    pub service: ServiceName,
    /// Currently allocated capacity units.
    pub current_units: u32,
    /// Most recent observed peak saturation in basis points.
    pub current_saturation_bps: u32,
    /// Most recent observed P99 critical path latency in milliseconds.
    pub current_p99_ms: u64,
    /// Derived capacity health classification.
    pub health_state: CapacityHealthState,
    /// Historical trend projection and runway calculations, if history allows.
    pub trend: Option<TrendProjection>,
    /// Recommended sizing or mitigating capacity action.
    pub recommended_action: CapacityAction,
}

/// What a report says.
pub struct ReportModel {
    pub service: Seq<char>,
    pub current_units: u32,
    pub current_saturation_bps: u32,
    pub current_p99_ms: u64,
    pub health_state: CapacityHealthState,
    pub trend: Option<TrendProjection>,
    pub recommended_action: ActionModel,
}

impl View for ServiceCapacityReport {
    type V = ReportModel;

    open spec fn view(&self) -> ReportModel {
        ReportModel {
            service: self.service@,
            current_units: self.current_units,
            current_saturation_bps: self.current_saturation_bps,
            current_p99_ms: self.current_p99_ms,
            health_state: self.health_state,
            trend: self.trend,
            recommended_action: self.recommended_action@,
        }
    }
}

/// The report on a service that has samples.
pub open spec fn report_on(
    s: ServiceModel,
    estimate: Option<TrendEstimate>,
    config: CapacityPlanningConfig,
    now: u64,
) -> ReportModel {
    let latest = s.history.samples.last();
    let trend = trend_of(s.history, config, estimate);
    ReportModel {
        service: s.service,
        current_units: s.current_units,
        current_saturation_bps: saturation_of(latest),
        current_p99_ms: latest.p99_latency_ms,
        health_state: health_of(latest, trend, config),
        trend,
        recommended_action: action_of(s, trend, config, now),
    }
}

/// System-wide aggregation of capacity health across all services.
#[derive(Clone, Debug, Eq, PartialEq)]
pub struct SystemCapacitySnapshot {
    /// Number of active services monitored.
    pub services_monitored: usize,
    /// Sum of all capacity units allocated across services.
    pub total_units_allocated: u32,
    /// Highest peak saturation observed across any service (bps).
    pub max_saturation_bps: u32,
    /// Mean saturation across all registered services (bps).
    pub avg_saturation_bps: u32,
    /// Services currently in `Healthy` state.
    pub healthy_count: usize,
    /// Services currently in `Warning` state.
    pub warning_count: usize,
    /// Services currently in `Critical` state.
    pub critical_count: usize,
    /// Services currently in `Exhausted` state.
    pub exhausted_count: usize,
    /// Service with the shortest runway to exhaustion, with seconds remaining.
    pub shortest_runway: Option<(ServiceName, u64)>,
    /// P99 latency target constant.
    pub p99_target_ms: u64,
    /// 99.99% availability target constant.
    pub availability_target_bps: u32,
}

/// Whether a service has been observed.
pub open spec fn observed(s: ServiceModel) -> bool {
    s.history.samples.len() > 0
}

/// The saturation that a service shows; none where it has not been observed.
pub open spec fn current_saturation(s: ServiceModel) -> int {
    if observed(s) {
        saturation_of(s.history.samples.last()) as int
    } else {
        0
    }
}

/// The estimate for a service, where there is one.
pub open spec fn estimate_for(
    estimates: Map<Seq<char>, TrendEstimate>,
    service: Seq<char>,
) -> Option<TrendEstimate> {
    if estimates.dom().contains(service) {
        Some(estimates[service])
    } else {
        None
    }
}

/// The health of an observed service.
pub open spec fn current_health(
    s: ServiceModel,
    config: CapacityPlanningConfig,
    estimates: Map<Seq<char>, TrendEstimate>,
) -> CapacityHealthState {
    health_of(
        s.history.samples.last(),
        trend_of(s.history, config, estimate_for(estimates, s.service)),
        config,
    )
}

/// The seconds until an observed service is exhausted, where a trend says so.
pub open spec fn current_runway(
    s: ServiceModel,
    config: CapacityPlanningConfig,
    estimates: Map<Seq<char>, TrendEstimate>,
) -> Option<u64> {
    match trend_of(s.history, config, estimate_for(estimates, s.service)) {
        Some(t) => t.runway_exhaustion_secs,
        None => None,
    }
}

/// All the units of some services.
pub open spec fn total_units(services: Seq<ServiceModel>) -> int
    decreases services.len(),
{
    if services.len() == 0 {
        0
    } else {
        total_units(services.drop_last()) + services.last().current_units
    }
}

/// The highest saturation of some services.
pub open spec fn highest_saturation(services: Seq<ServiceModel>) -> int
    decreases services.len(),
{
    if services.len() == 0 {
        0
    } else {
        greatest(highest_saturation(services.drop_last()), current_saturation(services.last()))
    }
}

/// All the saturations of some services.
pub open spec fn total_saturation(services: Seq<ServiceModel>) -> int
    decreases services.len(),
{
    if services.len() == 0 {
        0
    } else {
        total_saturation(services.drop_last()) + current_saturation(services.last())
    }
}

/// How many observed services are in a state.
pub open spec fn count_in(
    services: Seq<ServiceModel>,
    h: CapacityHealthState,
    config: CapacityPlanningConfig,
    estimates: Map<Seq<char>, TrendEstimate>,
) -> nat {
    services.filter(
        |s: ServiceModel| observed(s) && current_health(s, config, estimates) == h,
    ).len()
}

/// A service has the shortest runway: no service has a shorter one, and none that stands before it
/// has the same.
pub open spec fn has_shortest_runway(
    services: Seq<ServiceModel>,
    i: int,
    config: CapacityPlanningConfig,
    estimates: Map<Seq<char>, TrendEstimate>,
) -> bool {
    &&& current_runway(services[i], config, estimates) is Some
    &&& forall|j: int|
        0 <= j < services.len() && current_runway(
            #[trigger] services[j],
            config,
            estimates,
        ) is Some ==> {
            let mine = current_runway(services[i], config, estimates)->0;
            let other = current_runway(services[j], config, estimates)->0;
            mine < other || (mine == other && i <= j)
        }
}

/// The name and the runway of the service with the shortest runway, where there is a runway.
pub open spec fn is_shortest(
    services: Seq<ServiceModel>,
    shortest: Option<(ServiceName, u64)>,
    config: CapacityPlanningConfig,
    estimates: Map<Seq<char>, TrendEstimate>,
) -> bool {
    match shortest {
        Some((name, secs)) => exists|i: int|
            0 <= i < services.len() && #[trigger] has_shortest_runway(
                services,
                i,
                config,
                estimates,
            ) && services[i].service == name@ && current_runway(services[i], config, estimates)
                == Some(secs),
        None => forall|i: int|
            0 <= i < services.len() ==> current_runway(
                #[trigger] services[i],
                config,
                estimates,
            ) is None,
    }
}

proof fn lemma_count_step(
    all: Seq<ServiceModel>,
    i: int,
    h: CapacityHealthState,
    config: CapacityPlanningConfig,
    estimates: Map<Seq<char>, TrendEstimate>,
)
    requires
        0 <= i < all.len(),
    ensures
        count_in(all.take(i + 1), h, config, estimates) == count_in(
            all.take(i),
            h,
            config,
            estimates,
        ) + (if observed(all[i]) && current_health(all[i], config, estimates) == h {
            1nat
        } else {
            0nat
        }),
{
    let p = |s: ServiceModel| observed(s) && current_health(s, config, estimates) == h;
    lemma_filter_step(all, i, p);
}

proof fn lemma_shortest_step(
    all: Seq<ServiceModel>,
    i: int,
    before: Option<(ServiceName, u64)>,
    after: Option<(ServiceName, u64)>,
    config: CapacityPlanningConfig,
    estimates: Map<Seq<char>, TrendEstimate>,
)
    requires
        0 <= i < all.len(),
        is_shortest(all.take(i), before, config, estimates),
        match current_runway(all[i], config, estimates) {
            Some(secs) => if before is None || secs < (before->0).1 {
                after is Some && (after->0).0@ == all[i].service && (after->0).1 == secs
            } else {
                after == before
            },
            None => after == before,
        },
    ensures
        is_shortest(all.take(i + 1), after, config, estimates),
{
    let s = all.take(i);
    let t = all.take(i + 1);
    assert(t[i] == all[i]);
    assert forall|j: int| 0 <= j < i implies #[trigger] t[j] == s[j] by {}
    let now = current_runway(all[i], config, estimates);
    if before is Some {
        let k = choose|k: int|
            0 <= k < s.len() && #[trigger] has_shortest_runway(s, k, config, estimates)
                && s[k].service == (before->0).0@ && current_runway(s[k], config, estimates)
                == Some((before->0).1);
        assert(s[k] == t[k]);
        if now is Some && now->0 < (before->0).1 {
            assert forall|j: int|
                0 <= j < t.len() && current_runway(#[trigger] t[j], config, estimates) is Some implies {
                let other = current_runway(t[j], config, estimates)->0;
                now->0 < other || (now->0 == other && i <= j)
            } by {
                if j < i {
                    assert(s[j] == t[j]);
                }
            }
            assert(has_shortest_runway(t, i, config, estimates));
        } else {
            assert forall|j: int|
                0 <= j < t.len() && current_runway(#[trigger] t[j], config, estimates) is Some implies {
                let mine = current_runway(t[k], config, estimates)->0;
                let other = current_runway(t[j], config, estimates)->0;
                mine < other || (mine == other && k <= j)
            } by {
                if j < i {
                    assert(s[j] == t[j]);
                }
            }
            assert(has_shortest_runway(t, k, config, estimates));
        }
    } else if now is Some {
        assert forall|j: int|
            0 <= j < t.len() && current_runway(#[trigger] t[j], config, estimates) is Some implies {
            let other = current_runway(t[j], config, estimates)->0;
            now->0 < other || (now->0 == other && i <= j)
        } by {
            if j < i {
                assert(s[j] == t[j]);
            }
        }
        assert(has_shortest_runway(t, i, config, estimates));
    } else {
        assert forall|j: int| 0 <= j < t.len() implies current_runway(
            #[trigger] t[j],
            config,
            estimates,
        ) is None by {
            if j < i {
                assert(s[j] == t[j]);
            }
        }
    }
}

/// What a registry holds.
pub struct RegistryState {
    pub config: CapacityPlanningConfig,
    pub services: Map<Seq<char>, ServiceModel>,
}

/// The services of a registry by name.
pub open spec fn services_by_name(r: RegistryState) -> Seq<ServiceModel> {
    listing::<String, ServiceModel>(r.services).map_values(|e: (Seq<char>, ServiceModel)| e.1)
}

/// Why a service cannot be registered, if it cannot.
pub open spec fn registration_error(
    r: RegistryState,
    service: Seq<char>,
    initial_units: u32,
) -> Option<CapacityError> {
    if r.services.dom().contains(service) {
        Some(CapacityError::ServiceAlreadyExists)
    } else if r.services.dom().len() >= MAX_TRACKED_SERVICES {
        Some(CapacityError::TooManyServices)
    } else if initial_units < r.config.min_units || initial_units > r.config.max_units {
        Some(CapacityError::AllocationBoundsViolated)
    } else {
        None
    }
}

/// The registry after a service has been registered.
pub open spec fn registered(r: RegistryState, service: Seq<char>, initial_units: u32) -> RegistryState {
    RegistryState {
        services: r.services.insert(
            service,
            fresh_service(service, initial_units, r.config.history_window_capacity),
        ),
        ..r
    }
}

/// The registry after a sample of a registered service.
pub open spec fn sampled(r: RegistryState, service: Seq<char>, sample: UsageSample) -> RegistryState {
    let s = r.services[service];
    RegistryState {
        services: r.services.insert(
            service,
            ServiceModel { history: pushed(s.history, sample), ..s },
        ),
        ..r
    }
}

/// Why a canary cannot be promoted, if it cannot.
pub open spec fn promotion_error(
    r: RegistryState,
    service: Seq<char>,
    canary: CapacityCanaryAnalysis,
    now: u64,
) -> Option<CapacityError> {
    if gate_error(canary) is Some {
        gate_error(canary)
    } else if !r.services.dom().contains(service) {
        Some(CapacityError::ServiceNotFound)
    } else if canary.candidate_units < r.config.min_units || canary.candidate_units
        > r.config.max_units {
        Some(CapacityError::AllocationBoundsViolated)
    } else if cooling_down(r.services[service].last_action_at, r.config, now) {
        Some(CapacityError::CooldownActive)
    } else {
        None
    }
}

/// The registry after a canary has been promoted.
pub open spec fn promoted(
    r: RegistryState,
    service: Seq<char>,
    canary: CapacityCanaryAnalysis,
    now: u64,
) -> RegistryState {
    RegistryState {
        services: r.services.insert(
            service,
            ServiceModel {
                current_units: canary.candidate_units,
                last_action_at: Some(now),
                last_action: Some(
                    ActionModel::Rebalance {
                        target_units: canary.candidate_units,
                        reason: "Promoted canary deployment after passing all release gates"@,
                    },
                ),
                ..r.services[service]
            },
        ),
        ..r
    }
}

/// The registry after a service's cooldown has been reset.
pub open spec fn cooldown_reset(r: RegistryState, service: Seq<char>) -> RegistryState {
    RegistryState {
        services: r.services.insert(
            service,
            ServiceModel { last_action_at: None, ..r.services[service] },
        ),
        ..r
    }
}

/// Every service stands under its name with a history in order, and there are not too many.
pub open spec fn registry_ok(r: RegistryState) -> bool {
    &&& r.services.dom().finite()
    &&& r.services.dom().len() <= MAX_TRACKED_SERVICES
    &&& forall|name: Seq<char>| #[trigger]
        r.services.dom().contains(name) ==> r.services[name].service == name && history_ok(
            r.services[name].history,
        )
}

/// Top-level coordinator managing multi-service capacity planning.
#[derive(Clone, Debug)]
pub struct CapacityPlanningRegistry {
    services: OrderedMap<ServiceName, ServiceCapacityState>,
    config: CapacityPlanningConfig,
}

impl View for CapacityPlanningRegistry {
    type V = RegistryState;

    closed spec fn view(&self) -> RegistryState {
        RegistryState {
            config: self.config,
            services: mapped(self.services@, |s: ServiceCapacityState| s@),
        }
    }
}

impl CapacityPlanningRegistry {
    /// Every service stands under its name with a history in order, and there are not too many.
    pub closed spec fn wf(&self) -> bool {
        &&& self.services.wf()
        &&& registry_ok(self@)
    }

    /// Every service stands under its name with a bounded history, and there are no more services
    /// than may be tracked.
    pub proof fn law_in_order(&self)
        requires
            self.wf(),
        ensures
            registry_ok(self@),
    {
    }

    proof fn lemma_by_name(&self)
        requires
            self.wf(),
        ensures
            services_by_name(self@).len() == self.services.count(),
            forall|i: int|
                0 <= i < self.services.count() ==> #[trigger] services_by_name(self@)[i]
                    == self.services.entries()[i].1@ && self.services.entries()[i].1.wf()
                    && services_by_name(self@)[i].service == self.services.entries()[i].0,
    {
        let f = |s: ServiceCapacityState| s@;
        let e = self.services.entries();
        self.services.lemma_ascending();
        lemma_listing_mapped::<String, ServiceCapacityState, ServiceModel>(e, f);
        assert forall|i: int| 0 <= i < e.len() implies #[trigger] services_by_name(self@)[i]
            == e[i].1@ && e[i].1.wf() && services_by_name(self@)[i].service == e[i].0 by {
            self.services.lemma_at(i);
            assert(self@.services.dom().contains(e[i].0));
        }
    }

    /// Creates a new capacity registry with the given configuration.
    pub fn new(config: CapacityPlanningConfig) -> (r: Self)
        ensures
            r.wf(),
            r@ == (RegistryState { config, services: Map::empty() }),
    {
        let r = CapacityPlanningRegistry { services: OrderedMap::new(), config };
        assert(r@.services =~= Map::empty());
        r
    }

    /// Returns the active configuration.
    pub fn config(&self) -> (r: &CapacityPlanningConfig)
        ensures
            *r == self@.config,
    {
        &self.config
    }

    /// Registers a new service for capacity tracking.
    pub fn register_service(&mut self, service: &str, initial_units: u32) -> (r: Result<
        (),
        CapacityError,
    >)
        requires
            old(self).wf(),
        ensures
            final(self).wf(),
            match registration_error(old(self)@, service@, initial_units) {
                Some(e) => r == Err::<(), _>(e) && final(self)@ == old(self)@,
                None => r == Ok::<_, CapacityError>(()) && final(self)@ == registered(
                    old(self)@,
                    service@,
                    initial_units,
                ),
            },
    {
        let ghost before = self@;
        let n: usize = self.services.len();
        assert(before.services.dom() =~= self.services@.dom());
        if self.services.get_text(service).is_some() {
            return Err(CapacityError::ServiceAlreadyExists);
        }
        if n >= MAX_TRACKED_SERVICES {
            return Err(CapacityError::TooManyServices);
        }
        if initial_units < self.config.min_units || initial_units > self.config.max_units {
            return Err(CapacityError::AllocationBoundsViolated);
        }
        let state: ServiceCapacityState = ServiceCapacityState::new(
            service,
            initial_units,
            self.config.history_window_capacity,
        );
        let ghost model = state@;
        self.services.insert(service.to_owned(), state);
        proof {
            assert(self@.services =~= before.services.insert(service@, model));
            self.lemma_kept(before, service@);
        }
        Ok(())
    }

    proof fn lemma_kept(&self, before: RegistryState, service: Seq<char>)
        requires
            self.services.wf(),
            registry_ok(before),
            self@.services == before.services.insert(service, self@.services[service]),
            before.services.dom().contains(service) || before.services.dom().len()
                < MAX_TRACKED_SERVICES,
            self@.services[service].service == service,
            history_ok(self@.services[service].history),
        ensures
            self.wf(),
    {
        assert(self@.services.dom() =~= before.services.dom().insert(service));
        assert forall|name: Seq<char>| #[trigger] self@.services.dom().contains(name) implies
            self@.services[name].service == name && history_ok(self@.services[name].history) by {
            if name != service {
                assert(before.services.dom().contains(name));
            }
        }
    }

    /// Ingests a new usage telemetry sample for the specified service.
    pub fn record_sample(&mut self, service: &str, sample: UsageSample) -> (r: Result<
        (),
        CapacityError,
    >)
        requires
            old(self).wf(),
        ensures
            final(self).wf(),
            if old(self)@.services.dom().contains(service@) {
                r == Ok::<_, CapacityError>(()) && final(self)@ == sampled(
                    old(self)@,
                    service@,
                    sample,
                )
            } else {
                r == Err::<(), _>(CapacityError::ServiceNotFound) && final(self)@ == old(self)@
            },
    {
        let ghost before = self@;
        match self.services.get_mut_text(service) {
            Some(state) => {
                assert(before.services.dom().contains(service@));
                state.record_sample(sample);
            },
            None => {
                assert(!before.services.dom().contains(service@));
                return Err(CapacityError::ServiceNotFound);
            },
        }
        proof {
            assert(before.services.dom().contains(service@));
            assert(self@.services =~= sampled(before, service@, sample).services);
            self.lemma_kept(before, service@);
        }
        Ok(())
    }

    /// The report on a service that has samples; nothing where it has none.
    fn report(state: &ServiceCapacityState, config: &CapacityPlanningConfig, estimate: Option<
        &TrendEstimate,
    >, now: u64) -> (r: Option<ServiceCapacityReport>)
        ensures
            r is Some <==> observed(state@),
            r matches Some(report) ==> report@ == report_on(
                state@,
                estimate_value(estimate),
                *config,
                now,
            ),
    {
        let latest: &UsageSample = match state.history.latest() {
            Some(s) => s,
            None => {
                return None;
            },
        };
        let trend: Option<TrendProjection> = Self::trend(&state.history, config, estimate);
        let health_state: CapacityHealthState = CapacityForecaster::classify_health(
            latest,
            trend.as_ref(),
            config,
        );
        let recommended_action: CapacityAction = CapacityForecaster::recommend_action(
            state,
            trend.as_ref(),
            config,
            now,
        );
        Some(
            ServiceCapacityReport {
                service: state.service.clone(),
                current_units: state.current_units,
                current_saturation_bps: latest.saturation_bps(),
                current_p99_ms: latest.p99_latency_ms,
                health_state,
                trend,
                recommended_action,
            },
        )
    }

    /// The trend of a service, where there are enough samples and an estimate.
    fn trend(
        history: &HistoricalUsageBuffer,
        config: &CapacityPlanningConfig,
        estimate: Option<&TrendEstimate>,
    ) -> (r: Option<TrendProjection>)
        ensures
            r == trend_of(history@, *config, estimate_value(estimate)),
    {
        match estimate {
            Some(e) => match CapacityForecaster::compute_trend(history, config, e) {
                Ok(t) => Some(t),
                Err(_) => None,
            },
            None => None,
        }
    }

    /// Evaluates current health, trend, and recommended action for a service, given the estimate
    /// fitted to its history.
    pub fn evaluate_service(
        &self,
        service: &str,
        estimate: Option<&TrendEstimate>,
        now: u64,
    ) -> (r: Result<ServiceCapacityReport, CapacityError>)
        requires
            self.wf(),
        ensures
            if !self@.services.dom().contains(service@) {
                r == Err::<ServiceCapacityReport, _>(CapacityError::ServiceNotFound)
            } else if !observed(self@.services[service@]) {
                r == Err::<ServiceCapacityReport, _>(CapacityError::InsufficientHistory)
            } else {
                r is Ok && r->Ok_0@ == report_on(
                    self@.services[service@],
                    estimate_value(estimate),
                    self@.config,
                    now,
                )
            },
    {
        match self.services.get_text(service) {
            Some(state) => {
                assert(self@.services.dom().contains(service@));
                match Self::report(state, &self.config, estimate, now) {
                    Some(report) => Ok(report),
                    None => Err(CapacityError::InsufficientHistory),
                }
            },
            None => Err(CapacityError::ServiceNotFound),
        }
    }

    /// Evaluates all registered services that have samples, by name, given the estimates fitted to
    /// their histories.
    pub fn evaluate_all(&self, estimates: &OrderedMap<ServiceName, TrendEstimate>, now: u64) -> (r:
        Vec<ServiceCapacityReport>)
        requires
            self.wf(),
            estimates.wf(),
        ensures
            r@.map_values(|report: ServiceCapacityReport| report@) == services_by_name(
                self@,
            ).filter(|s: ServiceModel| observed(s)).map_values(
                |s: ServiceModel|
                    report_on(s, estimate_for(estimates@, s.service), self@.config, now),
            ),
    {
        let ghost all = services_by_name(self@);
        let ghost p = |s: ServiceModel| observed(s);
        let ghost f = |s: ServiceModel|
            report_on(s, estimate_for(estimates@, s.service), self@.config, now);
        let ghost g = |report: ServiceCapacityReport| report@;
        proof {
            self.lemma_by_name();
        }
        let n: usize = self.services.len();
        let mut reports: Vec<ServiceCapacityReport> = Vec::new();
        let mut i: usize = 0;
        proof {
            reveal(Seq::filter);
            assert(all.take(0).filter(p) =~= Seq::empty());
            assert(reports@.map_values(g) =~= all.take(0).filter(p).map_values(f));
        }
        while i < n
            invariant
                self.wf(),
                estimates.wf(),
                all == services_by_name(self@),
                n == self.services.count(),
                n == all.len(),
                i <= n,
                forall|i: int|
                    0 <= i < n ==> #[trigger] all[i] == self.services.entries()[i].1@,
                p == (|s: ServiceModel| observed(s)),
                f == (|s: ServiceModel|
                    report_on(s, estimate_for(estimates@, s.service), self@.config, now)),
                g == (|report: ServiceCapacityReport| report@),
                reports@.map_values(g) == all.take(i as int).filter(p).map_values(f),
            decreases n - i,
        {
            let state: &ServiceCapacityState = self.services.value_at(i);
            let ghost s = all[i as int];
            proof {
                assert(s == state@);
                lemma_filter_step(all, i as int, p);
            }
            let estimate: Option<&TrendEstimate> = estimates.get(&state.service);
            let ghost before = reports@;
            match Self::report(state, &self.config, estimate, now) {
                Some(report) => {
                    let ghost model = report@;
                    reports.push(report);
                    proof {
                        assert(model == f(s));
                        assert(reports@.map_values(g) =~= before.map_values(g).push(model));
                        assert(all.take(i as int).filter(p).push(s).map_values(f) =~= all.take(
                            i as int,
                        ).filter(p).map_values(f).push(f(s)));
                    }
                },
                None => {},
            }
            i = i + 1;
        }
        assert(all.take(n as int) =~= all);
        reports
    }

    /// The registered services, by name.
    pub fn services(&self) -> (r: Vec<&ServiceCapacityState>)
        requires
            self.wf(),
        ensures
            r@.map_values(|s: &ServiceCapacityState| s@) == services_by_name(self@),
    {
        let ghost all = services_by_name(self@);
        proof {
            self.lemma_by_name();
        }
        let n: usize = self.services.len();
        let mut found: Vec<&ServiceCapacityState> = Vec::new();
        let mut i: usize = 0;
        while i < n
            invariant
                self.wf(),
                n == self.services.count(),
                n == all.len(),
                i <= n,
                forall|i: int|
                    0 <= i < n ==> #[trigger] all[i] == self.services.entries()[i].1@,
                found@.len() == i,
                forall|j: int| 0 <= j < i ==> (#[trigger] found@[j])@ == all[j],
            decreases n - i,
        {
            let state: &ServiceCapacityState = self.services.value_at(i);
            assert(state@ == all[i as int]);
            found.push(state);
            i = i + 1;
        }
        assert(found@.map_values(|s: &ServiceCapacityState| s@) =~= all);
        found
    }

    /// Promotes a canary deployment to production after release-gate verification.
    ///
    /// Checks:
    /// * `canary.passes_release_gate()` (Security review, 99.99% availability, P99 <= 100ms)
    /// * Target units within bounds (`min_units`..`max_units`)
    /// * Cooldown window respected
    ///
    /// Returns the units that the service had before.
    pub fn promote_canary_deployment(
        &mut self,
        service: &str,
        canary: &CapacityCanaryAnalysis,
        now: u64,
    ) -> (r: Result<u32, CapacityError>)
        requires
            old(self).wf(),
        ensures
            final(self).wf(),
            match promotion_error(old(self)@, service@, *canary, now) {
                Some(e) => r == Err::<u32, _>(e) && final(self)@ == old(self)@,
                None => r == Ok::<_, CapacityError>(old(self)@.services[service@].current_units)
                    && final(self)@ == promoted(old(self)@, service@, *canary, now),
            },
    {
        let ghost before = self@;
        match canary.passes_release_gate() {
            Ok(()) => {},
            Err(e) => {
                return Err(e);
            },
        }
        let i: usize = match self.services.position_text(service) {
            Some(i) => i,
            None => {
                return Err(CapacityError::ServiceNotFound);
            },
        };
        assert(before.services.dom().contains(service@));
        if canary.candidate_units < self.config.min_units || canary.candidate_units
            > self.config.max_units {
            return Err(CapacityError::AllocationBoundsViolated);
        }
        if let Some(last_at) = self.services.value_at(i).last_action_at {
            if now.saturating_sub(last_at) < self.config.cooldown_secs {
                return Err(CapacityError::CooldownActive);
            }
        }
        let state: &mut ServiceCapacityState = self.services.value_at_mut(i);
        let old_units: u32 = state.current_units;
        state.current_units = canary.candidate_units;
        state.last_action_at = Some(now);
        state.last_action = Some(
            CapacityAction::Rebalance {
                target_units: canary.candidate_units,
                reason: "Promoted canary deployment after passing all release gates".to_owned(),
            },
        );
        proof {
            assert(self@.services =~= promoted(before, service@, *canary, now).services);
            self.lemma_kept(before, service@);
        }
        Ok(old_units)
    }

    /// Resets the cooldown timer for a service (e.g., after an emergency rollback).
    pub fn reset_cooldown(&mut self, service: &str) -> (r: Result<(), CapacityError>)
        requires
            old(self).wf(),
        ensures
            final(self).wf(),
            if old(self)@.services.dom().contains(service@) {
                r == Ok::<_, CapacityError>(()) && final(self)@ == cooldown_reset(
                    old(self)@,
                    service@,
                )
            } else {
                r == Err::<(), _>(CapacityError::ServiceNotFound) && final(self)@ == old(self)@
            },
    {
        let ghost before = self@;
        match self.services.get_mut_text(service) {
            Some(state) => {
                state.last_action_at = None;
            },
            None => {
                assert(!before.services.dom().contains(service@));
                return Err(CapacityError::ServiceNotFound);
            },
        }
        proof {
            assert(before.services.dom().contains(service@));
            assert(self@.services =~= cooldown_reset(before, service@).services);
            self.lemma_kept(before, service@);
        }
        Ok(())
    }

    /// Produces a system-wide dashboard snapshot for alerting and operations, given the estimates
    /// fitted to the histories of the services.
    pub fn dashboard_snapshot(
        &self,
        estimates: &OrderedMap<ServiceName, TrendEstimate>,
        now: u64,
    ) -> (r: SystemCapacitySnapshot)
        requires
            self.wf(),
            estimates.wf(),
        ensures
            ({
                let all = services_by_name(self@);
                &&& r.services_monitored == all.len()
                &&& r.total_units_allocated == least(total_units(all), u32::MAX as int)
                &&& r.max_saturation_bps == highest_saturation(all)
                &&& r.avg_saturation_bps == if all.len() == 0 {
                    0
                } else {
                    least(total_saturation(all) / all.len() as int, 10_000)
                }
                &&& r.healthy_count == count_in(
                    all,
                    CapacityHealthState::Healthy,
                    self@.config,
                    estimates@,
                )
                &&& r.warning_count == count_in(
                    all,
                    CapacityHealthState::Warning,
                    self@.config,
                    estimates@,
                )
                &&& r.critical_count == count_in(
                    all,
                    CapacityHealthState::Critical,
                    self@.config,
                    estimates@,
                )
                &&& r.exhausted_count == count_in(
                    all,
                    CapacityHealthState::Exhausted,
                    self@.config,
                    estimates@,
                )
                &&& is_shortest(all, r.shortest_runway, self@.config, estimates@)
                &&& r.p99_target_ms == CRITICAL_PATH_P99_MS
                &&& r.availability_target_bps == AVAILABILITY_TARGET_BPS
            }),
    {
        let ghost all = services_by_name(self@);
        let ghost config = self@.config;
        proof {
            self.lemma_by_name();
        }
        let n: usize = self.services.len();
        assert(self@.services.dom() =~= self.services@.dom());
        let mut total: u32 = 0;
        let mut max_sat: u32 = 0;
        let mut sum_sat: u64 = 0;
        let mut healthy: usize = 0;
        let mut warning: usize = 0;
        let mut critical: usize = 0;
        let mut exhausted: usize = 0;
        let mut shortest_runway: Option<(ServiceName, u64)> = None;
        let mut i: usize = 0;
        proof {
            let none = all.take(0);
            assert(none.len() == 0);
            reveal(Seq::filter);
        }
        while i < n
            invariant
                self.wf(),
                estimates.wf(),
                all == services_by_name(self@),
                config == self@.config,
                n == self.services.count(),
                n == all.len(),
                n <= MAX_TRACKED_SERVICES,
                i <= n,
                forall|i: int|
                    0 <= i < n ==> #[trigger] all[i] == self.services.entries()[i].1@
                        && self.services.entries()[i].1.wf(),
                total == least(total_units(all.take(i as int)), u32::MAX as int),
                0 <= total_units(all.take(i as int)),
                max_sat == highest_saturation(all.take(i as int)),
                sum_sat == total_saturation(all.take(i as int)),
                sum_sat <= i * u32::MAX,
                healthy == count_in(
                    all.take(i as int),
                    CapacityHealthState::Healthy,
                    config,
                    estimates@,
                ),
                warning == count_in(
                    all.take(i as int),
                    CapacityHealthState::Warning,
                    config,
                    estimates@,
                ),
                critical == count_in(
                    all.take(i as int),
                    CapacityHealthState::Critical,
                    config,
                    estimates@,
                ),
                exhausted == count_in(
                    all.take(i as int),
                    CapacityHealthState::Exhausted,
                    config,
                    estimates@,
                ),
                healthy <= i,
                warning <= i,
                critical <= i,
                exhausted <= i,
                is_shortest(all.take(i as int), shortest_runway, config, estimates@),
            decreases n - i,
        {
            let state: &ServiceCapacityState = self.services.value_at(i);
            let ghost s = all[i as int];
            let ghost before = all.take(i as int);
            let ghost after = all.take(i + 1);
            proof {
                assert(s == state@);
                assert(after.drop_last() =~= before);
                assert(after.last() == s);
                lemma_count_step(all, i as int, CapacityHealthState::Healthy, config, estimates@);
                lemma_count_step(all, i as int, CapacityHealthState::Warning, config, estimates@);
                lemma_count_step(all, i as int, CapacityHealthState::Critical, config, estimates@);
                lemma_count_step(
                    all,
                    i as int,
                    CapacityHealthState::Exhausted,
                    config,
                    estimates@,
                );
            }
            total = total.saturating_add(state.current_units);
            let ghost shortest = shortest_runway;
            match state.history.latest() {
                Some(latest) => {
                    let sat: u32 = latest.saturation_bps();
                    sum_sat = sum_sat + sat as u64;
                    if sat > max_sat {
                        max_sat = sat;
                    }
                    let estimate: Option<&TrendEstimate> = estimates.get(&state.service);
                    let trend: Option<TrendProjection> = Self::trend(
                        &state.history,
                        &self.config,
                        estimate,
                    );
                    match CapacityForecaster::classify_health(
                        latest,
                        trend.as_ref(),
                        &self.config,
                    ) {
                        CapacityHealthState::Healthy => {
                            healthy = healthy + 1;
                        },
                        CapacityHealthState::Warning => {
                            warning = warning + 1;
                        },
                        CapacityHealthState::Critical => {
                            critical = critical + 1;
                        },
                        CapacityHealthState::Exhausted => {
                            exhausted = exhausted + 1;
                        },
                    }
                    let secs: Option<u64> = match trend {
                        Some(t) => t.runway_exhaustion_secs,
                        None => None,
                    };
                    assert(secs == current_runway(s, config, estimates@));
                    if let Some(exhaust_secs) = secs {
                        let shorter: bool = match &shortest_runway {
                            Some((_, min_secs)) => exhaust_secs < *min_secs,
                            None => true,
                        };
                        if shorter {
                            shortest_runway = Some((state.service.clone(), exhaust_secs));
                        }
                    }
                },
                None => {},
            }
            proof {
                lemma_shortest_step(all, i as int, shortest, shortest_runway, config, estimates@);
            }
            i = i + 1;
        }
        assert(all.take(n as int) =~= all);
        let avg: u32 = if n > 0 {
            let mean: u64 = sum_sat / n as u64;
            if mean <= 10_000 {
                mean as u32
            } else {
                10_000
            }
        } else {
            0
        };
        SystemCapacitySnapshot {
            services_monitored: n,
            total_units_allocated: total,
            max_saturation_bps: max_sat,
            avg_saturation_bps: avg,
            healthy_count: healthy,
            warning_count: warning,
            critical_count: critical,
            exhausted_count: exhausted,
            shortest_runway,
            p99_target_ms: CRITICAL_PATH_P99_MS,
            availability_target_bps: AVAILABILITY_TARGET_BPS,
        }
    }

    /// Returns a reference to a registered service's state.
    pub fn service_state(&self, service: &str) -> (r: Option<&ServiceCapacityState>)
        requires
            self.wf(),
        ensures
            r is Some <==> self@.services.dom().contains(service@),
            r matches Some(s) ==> s@ == self@.services[service@] && s.wf(),
    {
        proof {
            if self.services@.dom().contains(service@) {
                assert(self@.services.dom().contains(service@));
            }
        }
        self.services.get_text(service)
    }
}

impl Default for CapacityPlanningRegistry {
    fn default() -> (r: Self)
        ensures
            r.wf(),
            r@ == (RegistryState { config: default_config(), services: Map::empty() }),
    {
        Self::new(CapacityPlanningConfig::default())
    }
}

/// The estimate behind a reference.
pub open spec fn estimate_value(estimate: Option<&TrendEstimate>) -> Option<TrendEstimate> {
    match estimate {
        Some(e) => Some(*e),
        None => None,
    }
}

/// A higher saturation, a higher latency or a shorter runway never makes a service healthier.
pub proof fn law_health_is_monotone(
    a: UsageSample,
    b: UsageSample,
    trend_a: Option<TrendProjection>,
    trend_b: Option<TrendProjection>,
    config: CapacityPlanningConfig,
)
    requires
        saturation_of(a) <= saturation_of(b),
        a.p99_latency_ms <= b.p99_latency_ms,
        trend_a is Some ==> trend_b is Some && no_longer(
            trend_b->0.runway_exhaustion_secs,
            trend_a->0.runway_exhaustion_secs,
        ) && no_longer(trend_b->0.runway_critical_secs, trend_a->0.runway_critical_secs),
    ensures
        severity(health_of(a, trend_a, config)) <= severity(health_of(b, trend_b, config)),
{
}

/// Whether a runway is no longer than another; an unknown one is endless.
pub open spec fn no_longer(a: Option<u64>, b: Option<u64>) -> bool {
    b is Some ==> a is Some && a->0 <= b->0
}

/// A recommended resizing keeps to the bounds: scaling up adds one or two units and stays within
/// the maximum, scaling down takes one and stays within the minimum.
pub proof fn law_recommendation_within_bounds(
    s: ServiceModel,
    trend: Option<TrendProjection>,
    config: CapacityPlanningConfig,
    now: u64,
)
    ensures
        match action_of(s, trend, config, now) {
            ActionModel::ScaleUp { delta_units, target_units, .. } => {
                &&& 1 <= delta_units <= 2
                &&& target_units == s.current_units + delta_units
                &&& target_units <= config.max_units
            },
            ActionModel::ScaleDown { delta_units, target_units, .. } => {
                &&& delta_units == 1
                &&& target_units == s.current_units - 1
                &&& config.min_units <= target_units
            },
            _ => true,
        },
{
}

/// After a promotion the service cools down: until the cooldown is over, nothing is recommended
/// for it and no other canary is promoted; a reset ends the cooldown.
pub proof fn law_promotion_starts_the_cooldown(
    r: RegistryState,
    service: Seq<char>,
    canary: CapacityCanaryAnalysis,
    now: u64,
    other: CapacityCanaryAnalysis,
    trend: Option<TrendProjection>,
    later: u64,
)
    requires
        promotion_error(r, service, canary, now) is None,
        r.config.cooldown_secs > 0,
        later < now + r.config.cooldown_secs,
    ensures
        ({
            let after = promoted(r, service, canary, now);
            let reset = cooldown_reset(after, service);
            &&& promotion_error(after, service, other, later) is Some
            &&& action_of(after.services[service], trend, r.config, later)
                == ActionModel::NoAction
            &&& promotion_error(reset, service, canary, later) is None
        }),
{
}

/// A canary is promoted only after a security review, at the availability, latency and success
/// targets, and into the bounds.
pub proof fn law_promotion_needs_every_gate(
    r: RegistryState,
    service: Seq<char>,
    canary: CapacityCanaryAnalysis,
    now: u64,
)
    requires
        promotion_error(r, service, canary, now) is None,
    ensures
        canary.security_review_passed,
        canary.availability_bps >= AVAILABILITY_TARGET_BPS,
        canary.observed_p99_ms <= CRITICAL_PATH_P99_MS,
        canary_success_bps(canary) >= CANARY_SUCCESS_TARGET_BPS,
        r.config.min_units <= canary.candidate_units <= r.config.max_units,
{
}

/// Every service has units within the bounds.
pub open spec fn units_in_bounds(r: RegistryState) -> bool {
    forall|name: Seq<char>| #[trigger]
        r.services.dom().contains(name) ==> r.config.min_units <= r.services[name].current_units
            <= r.config.max_units
}

/// The units of every service stay within the bounds, whatever is done with the registry, if at
/// least one unit is allowed.
pub proof fn law_units_stay_in_bounds(
    r: RegistryState,
    service: Seq<char>,
    initial_units: u32,
    sample: UsageSample,
    canary: CapacityCanaryAnalysis,
    now: u64,
)
    requires
        units_in_bounds(r),
        r.config.max_units >= 1,
    ensures
        registration_error(r, service, initial_units) is None ==> units_in_bounds(
            registered(r, service, initial_units),
        ),
        promotion_error(r, service, canary, now) is None ==> units_in_bounds(
            promoted(r, service, canary, now),
        ),
        r.services.dom().contains(service) ==> units_in_bounds(sampled(r, service, sample))
            && units_in_bounds(cooldown_reset(r, service)),
{
}

/// The dashboard counts every observed service in exactly one state.
pub proof fn law_every_observed_service_is_counted_once(
    services: Seq<ServiceModel>,
    config: CapacityPlanningConfig,
    estimates: Map<Seq<char>, TrendEstimate>,
)
    ensures
        count_in(services, CapacityHealthState::Healthy, config, estimates) + count_in(
            services,
            CapacityHealthState::Warning,
            config,
            estimates,
        ) + count_in(services, CapacityHealthState::Critical, config, estimates) + count_in(
            services,
            CapacityHealthState::Exhausted,
            config,
            estimates,
        ) == services.filter(|s: ServiceModel| observed(s)).len(),
    decreases services.len(),
{
    let n = services.len() as int;
    if n == 0 {
        reveal(Seq::filter);
    } else {
        let init = services.take(n - 1);
        law_every_observed_service_is_counted_once(init, config, estimates);
        assert(services.take(n) =~= services);
        lemma_count_step(services, n - 1, CapacityHealthState::Healthy, config, estimates);
        lemma_count_step(services, n - 1, CapacityHealthState::Warning, config, estimates);
        lemma_count_step(services, n - 1, CapacityHealthState::Critical, config, estimates);
        lemma_count_step(services, n - 1, CapacityHealthState::Exhausted, config, estimates);
        lemma_filter_step(services, n - 1, |s: ServiceModel| observed(s));
    }
}

/// Outside a cooldown a service is under pressure where its latest sample takes longer than 100 ms,
/// reaches the warning threshold, or is a day or less from the critical one. Under pressure it is
/// throttled where the latency is breached at critical saturation, else it gets more units where
/// there is room for any, and it never loses one.
pub proof fn law_pressure_is_answered(
    s: ServiceModel,
    trend: Option<TrendProjection>,
    config: CapacityPlanningConfig,
    now: u64,
)
    requires
        s.history.samples.len() > 0,
        s.last_action_at matches Some(at) ==> now >= at + config.cooldown_secs,
    ensures
        ({
            let sample = s.history.samples[s.history.samples.len() - 1];
            let saturation = peak_of(sample.metrics);
            let slow = sample.p99_latency_ms > 100;
            let near = trend matches Some(t) && (t.runway_critical_secs matches Some(secs) && secs
                < 86_400);
            let pressed = slow || saturation >= config.warning_threshold_bps || near;
            let throttled = slow && saturation >= config.critical_threshold_bps;
            let action = action_of(s, trend, config, now);
            &&& action is EmergencyThrottle <==> throttled
            &&& action is ScaleUp <==> pressed && !throttled && s.current_units < config.max_units
            &&& pressed && !throttled && s.current_units >= config.max_units ==> action is NoAction
            &&& action is ScaleDown <==> !pressed && !throttled && saturation < 3_000
                && sample.p99_latency_ms < 50 && !(trend matches Some(t) && t.is_accelerating)
                && s.current_units > config.min_units
            &&& !(action is Rebalance)
        }),
{
}

/// How much a recommended action does: throttling sheds half the traffic where the service is
/// exhausted and a quarter otherwise; scaling up adds two units where the headroom wanted exceeds
/// what is left up to the warning threshold by more than 30 points, and one otherwise, up to the
/// maximum; scaling down takes one.
pub proof fn law_size_of_the_action(
    s: ServiceModel,
    trend: Option<TrendProjection>,
    config: CapacityPlanningConfig,
    now: u64,
)
    requires
        s.history.samples.len() > 0,
        peak_of(s.history.samples.last().metrics) + config.target_headroom_bps <= u32::MAX,
    ensures
        ({
            let saturation = peak_of(s.history.samples.last().metrics);
            match action_of(s, trend, config, now) {
                ActionModel::EmergencyThrottle { drop_percentage_bps, .. } => drop_percentage_bps
                    == if saturation >= config.exhaustion_threshold_bps {
                    5_000u32
                } else {
                    2_500u32
                },
                ActionModel::ScaleUp { delta_units, target_units, .. } => {
                    let wanted: int = if saturation + config.target_headroom_bps
                        > config.warning_threshold_bps + 3_000 {
                        2
                    } else {
                        1
                    };
                    &&& target_units == s.current_units + delta_units
                    &&& delta_units == wanted || (delta_units < wanted && target_units
                        == config.max_units)
                    &&& delta_units >= 1
                    &&& target_units <= config.max_units
                },
                ActionModel::ScaleDown { delta_units, target_units, .. } => delta_units == 1
                    && target_units == s.current_units - 1,
                _ => true,
            }
        }),
{
}

/// Nothing is recommended during a cooldown, nor without a sample.
pub proof fn law_no_action_while_cooling_down(
    s: ServiceModel,
    trend: Option<TrendProjection>,
    config: CapacityPlanningConfig,
    now: u64,
)
    ensures
        s.history.samples.len() == 0 ==> action_of(s, trend, config, now) is NoAction,
        s.last_action_at matches Some(at) ==> (at <= now < at + config.cooldown_secs ==> action_of(
            s,
            trend,
            config,
            now,
        ) is NoAction),
{
}

/// The health of a service: exhausted where a sample takes longer than 100 ms or reaches the
/// exhaustion threshold, else critical from the critical threshold on or with less than 12 hours
/// to exhaustion, else in warning from the warning threshold on or with less than 48 hours to the
/// critical one, else healthy.
pub proof fn law_health_by_saturation_latency_and_runway(
    sample: UsageSample,
    trend: Option<TrendProjection>,
    config: CapacityPlanningConfig,
)
    ensures
        ({
            let saturation = peak_of(sample.metrics);
            let h = health_of(sample, trend, config);
            let exhausted = sample.p99_latency_ms > 100 || saturation
                >= config.exhaustion_threshold_bps;
            let critical = saturation >= config.critical_threshold_bps || (trend matches Some(t)
                && (t.runway_exhaustion_secs matches Some(secs) && secs < 12 * 3_600));
            let warning = saturation >= config.warning_threshold_bps || (trend matches Some(t) && (
            t.runway_critical_secs matches Some(secs) && secs < 48 * 3_600));
            &&& h is Exhausted <==> exhausted
            &&& h is Critical <==> !exhausted && critical
            &&& h is Warning <==> !exhausted && !critical && warning
            &&& h is Healthy <==> !exhausted && !critical && !warning
        }),
{
}

/// The saturation of a sample is that of its busiest dimension.
pub proof fn law_peak_is_the_busiest_dimension(m: ResourceMetrics)
    ensures
        peak_of(m) >= m.cpu_utilization_bps,
        peak_of(m) >= m.memory_utilization_bps,
        peak_of(m) >= m.iops_utilization_bps,
        peak_of(m) >= m.network_utilization_bps,
        peak_of(m) >= m.worker_saturation_bps,
        peak_of(m) == m.cpu_utilization_bps || peak_of(m) == m.memory_utilization_bps || peak_of(m)
            == m.iops_utilization_bps || peak_of(m) == m.network_utilization_bps || peak_of(m)
            == m.worker_saturation_bps,
{
}

/// A projected trend takes over what was estimated, but for thresholds that the latest sample has
/// reached already, to which no time is left, and a forecast beyond 100%.
pub proof fn law_projection_follows_the_estimate(
    h: History,
    config: CapacityPlanningConfig,
    estimate: TrendEstimate,
)
    requires
        h.samples.len() > 0,
    ensures
        ({
            let p = projection(h, config, estimate);
            let saturation = peak_of(h.samples.last().metrics);
            &&& saturation >= config.warning_threshold_bps ==> p.runway_warning_secs == Some(0u64)
            &&& saturation < config.warning_threshold_bps ==> p.runway_warning_secs
                == estimate.warning_secs
            &&& saturation >= config.critical_threshold_bps ==> p.runway_critical_secs == Some(0u64)
            &&& saturation < config.critical_threshold_bps ==> p.runway_critical_secs
                == estimate.critical_secs
            &&& saturation >= config.exhaustion_threshold_bps ==> p.runway_exhaustion_secs == Some(
                0u64,
            )
            &&& saturation < config.exhaustion_threshold_bps ==> p.runway_exhaustion_secs
                == estimate.exhaustion_secs
            &&& p.is_accelerating == estimate.is_accelerating
            &&& estimate.forecast_bps <= 10_000 ==> p.holt_winters_forecast_bps
                == estimate.forecast_bps
            &&& estimate.forecast_bps > 10_000 ==> p.holt_winters_forecast_bps == 10_000
        }),
{
}

/// There is a trend if and only if there are at least three samples and an estimate.
pub proof fn law_trend_needs_three_samples(
    h: History,
    config: CapacityPlanningConfig,
    estimate: Option<TrendEstimate>,
)
    ensures
        trend_of(h, config, estimate) is Some <==> h.samples.len() >= 3 && estimate is Some,
        trend_of(h, config, estimate) is Some ==> trend_of(h, config, estimate)->0 == projection(
            h,
            config,
            estimate->0,
        ),
{
}

/// A canary's success rate is its successful share in basis points, rounded down: never more than
/// all, all where all succeeded, and nothing without requests.
pub proof fn law_success_rate_is_the_share(c: CapacityCanaryAnalysis)
    ensures
        c.requests_evaluated == 0 ==> canary_success_bps(c) == 0,
        0 < c.requests_evaluated <= c.requests_successful ==> canary_success_bps(c) == 10_000,
        c.requests_successful < c.requests_evaluated ==> canary_success_bps(c)
            * c.requests_evaluated <= c.requests_successful * 10_000 < (canary_success_bps(c) + 1)
            * c.requests_evaluated,
{
    let n = c.requests_evaluated as int;
    let x = c.requests_successful * 10_000;
    if n > 0 {
        vstd::arithmetic::div_mod::lemma_fundamental_div_mod(x, n);
        vstd::arithmetic::div_mod::lemma_mod_bound(x, n);
        let q = x / n;
        assert(n * q == q * n) by (nonlinear_arith);
        assert((q + 1) * n == q * n + n) by (nonlinear_arith);
        if c.requests_evaluated <= c.requests_successful {
            assert(q >= 10_000) by (nonlinear_arith)
                requires
                    x >= 10_000 * n,
                    x < (q + 1) * n,
                    n > 0,
            ;
        } else {
            assert(q < 10_000) by (nonlinear_arith)
                requires
                    x < 10_000 * n,
                    q * n <= x,
                    n > 0,
            ;
        }
    }
}

/// A canary may be released if and only if it was reviewed, available at 99.99%, as fast as 100 ms
/// and successful at 99.99%; the first of these that fails is the error.
pub proof fn law_gate_needs_all_four(c: CapacityCanaryAnalysis)
    ensures
        ({
            let available = c.availability_bps >= 9_999;
            let fast = c.observed_p99_ms <= 100;
            let successful = canary_success_bps(c) >= 9_999;
            &&& gate_error(c) is None <==> c.security_review_passed && available && fast
                && successful
            &&& !c.security_review_passed ==> gate_error(c) == Some(
                CapacityError::SecurityReviewRequired,
            )
            &&& c.security_review_passed && !available ==> gate_error(c) == Some(
                CapacityError::AvailabilityTargetViolated,
            )
            &&& c.security_review_passed && available && !fast ==> gate_error(c) == Some(
                CapacityError::LatencyTargetViolated,
            )
            &&& c.security_review_passed && available && fast && !successful ==> gate_error(c)
                == Some(CapacityError::CanaryValidationFailed)
        }),
{
}

/// Registering takes up one service, with at least one unit, an empty history and no action, and
/// touches no other; it is refused exactly where the name is taken, 256 services are tracked, or
/// the units are out of bounds.
pub proof fn law_registering_adds_one_service(
    r: RegistryState,
    service: Seq<char>,
    initial_units: u32,
    other: Seq<char>,
)
    requires
        other != service,
    ensures
        ({
            let t = registered(r, service, initial_units);
            let taken = r.services.dom().contains(service);
            let full = r.services.dom().len() >= 256;
            let fits = r.config.min_units <= initial_units <= r.config.max_units;
            &&& registration_error(r, service, initial_units) is None <==> !taken && !full && fits
            &&& taken ==> registration_error(r, service, initial_units) == Some(
                CapacityError::ServiceAlreadyExists,
            )
            &&& !taken && full ==> registration_error(r, service, initial_units) == Some(
                CapacityError::TooManyServices,
            )
            &&& !taken && !full && !fits ==> registration_error(r, service, initial_units) == Some(
                CapacityError::AllocationBoundsViolated,
            )
            &&& t.services.dom().contains(service)
            &&& t.services[service].service == service
            &&& initial_units > 0 ==> t.services[service].current_units == initial_units
            &&& t.services[service].current_units > 0
            &&& t.services[service].history.samples.len() == 0
            &&& t.services[service].history.capacity >= 3
            &&& r.config.history_window_capacity >= 3 ==> t.services[service].history.capacity
                == r.config.history_window_capacity
            &&& t.services[service].last_action_at is None
            &&& t.services.dom().contains(other) == r.services.dom().contains(other)
            &&& t.services[other] == r.services[other]
            &&& t.config == r.config
        }),
{
}

/// A sample goes to the end of the history of its service and touches nothing else.
pub proof fn law_sample_goes_to_its_service(
    r: RegistryState,
    service: Seq<char>,
    sample: UsageSample,
    other: Seq<char>,
)
    requires
        other != service,
        r.services.dom().contains(service),
        history_ok(r.services[service].history),
    ensures
        ({
            let t = sampled(r, service, sample);
            let h = r.services[service].history.samples;
            let g = t.services[service].history.samples;
            &&& g.last() == sample
            &&& h.len() < r.services[service].history.capacity ==> g == h.push(sample)
            &&& h.len() == r.services[service].history.capacity ==> g == h.push(
                sample,
            ).drop_first()
            &&& t.services[service].history.capacity == r.services[service].history.capacity
            &&& t.services[service].current_units == r.services[service].current_units
            &&& t.services[service].last_action_at == r.services[service].last_action_at
            &&& t.services[service].last_action == r.services[service].last_action
            &&& t.services.dom().contains(other) == r.services.dom().contains(other)
            &&& t.services[other] == r.services[other]
            &&& t.config == r.config
        }),
{
    let h = r.services[service].history.samples;
    assert(h.push(sample).skip(1) =~= h.push(sample).drop_first());
}

/// A promotion gives the service the units of the canary as of now and touches no other; it is
/// refused exactly where a gate is missed, the service is unknown, the units are out of bounds, or
/// the last action is too recent.
pub proof fn law_promotion_resizes_one_service(
    r: RegistryState,
    service: Seq<char>,
    canary: CapacityCanaryAnalysis,
    now: u64,
    other: Seq<char>,
)
    requires
        other != service,
    ensures
        ({
            let t = promoted(r, service, canary, now);
            let e = promotion_error(r, service, canary, now);
            let known = r.services.dom().contains(service);
            let fits = r.config.min_units <= canary.candidate_units <= r.config.max_units;
            let cool = r.services[service].last_action_at matches Some(at) ==> now >= at
                + r.config.cooldown_secs || (now < at && r.config.cooldown_secs == 0);
            &&& e is None <==> gate_error(canary) is None && known && fits && cool
            &&& gate_error(canary) is Some ==> e == gate_error(canary)
            &&& gate_error(canary) is None && !known ==> e == Some(CapacityError::ServiceNotFound)
            &&& gate_error(canary) is None && known && !fits ==> e == Some(
                CapacityError::AllocationBoundsViolated,
            )
            &&& gate_error(canary) is None && known && fits && !cool ==> e == Some(
                CapacityError::CooldownActive,
            )
            &&& known ==> {
                &&& t.services[service].current_units == canary.candidate_units
                &&& t.services[service].last_action_at == Some(now)
                &&& t.services[service].last_action matches Some(
                    ActionModel::Rebalance { target_units, .. },
                ) && target_units == canary.candidate_units
                &&& t.services[service].history == r.services[service].history
                &&& t.services[service].service == r.services[service].service
            }
            &&& t.services.dom().contains(other) == r.services.dom().contains(other)
            &&& t.services[other] == r.services[other]
            &&& t.config == r.config
        }),
{
}

/// Resetting a cooldown forgets when the service was last resized and touches nothing else.
pub proof fn law_reset_forgets_the_last_action_time(
    r: RegistryState,
    service: Seq<char>,
    other: Seq<char>,
)
    requires
        other != service,
        r.services.dom().contains(service),
    ensures
        ({
            let t = cooldown_reset(r, service);
            &&& t.services[service].last_action_at is None
            &&& t.services[service].current_units == r.services[service].current_units
            &&& t.services[service].history == r.services[service].history
            &&& t.services[service].last_action == r.services[service].last_action
            &&& t.services.dom() == r.services.dom()
            &&& t.services[other] == r.services[other]
            &&& t.config == r.config
        }),
{
    assert(cooldown_reset(r, service).services.dom() =~= r.services.dom());
}

/// A report shows the units of the service, the saturation and the latency of its latest sample,
/// and the health and the action that follow from that sample and its trend.
pub proof fn law_report_shows_the_latest_sample(
    s: ServiceModel,
    estimate: Option<TrendEstimate>,
    config: CapacityPlanningConfig,
    now: u64,
)
    requires
        s.history.samples.len() > 0,
    ensures
        ({
            let report = report_on(s, estimate, config, now);
            let latest = s.history.samples[s.history.samples.len() - 1];
            let trend = trend_of(s.history, config, estimate);
            &&& report.service == s.service
            &&& report.current_units == s.current_units
            &&& report.current_saturation_bps == peak_of(latest.metrics)
            &&& report.current_p99_ms == latest.p99_latency_ms
            &&& report.trend == trend
            &&& report.health_state == health_of(latest, trend, config)
            &&& report.recommended_action == action_of(s, trend, config, now)
        }),
{
}

/// Adding a service adds its units and its saturation to the totals, and raises the highest
/// saturation to its own where that is higher.
pub proof fn law_totals_take_in_a_service(services: Seq<ServiceModel>, s: ServiceModel)
    ensures
        total_units(services.push(s)) == total_units(services) + s.current_units,
        s.history.samples.len() == 0 ==> total_saturation(services.push(s)) == total_saturation(
            services,
        ) && highest_saturation(services.push(s)) == greatest(highest_saturation(services), 0),
        s.history.samples.len() > 0 ==> total_saturation(services.push(s)) == total_saturation(
            services,
        ) + peak_of(s.history.samples.last().metrics) && highest_saturation(services.push(s))
            == greatest(
            highest_saturation(services),
            peak_of(s.history.samples.last().metrics) as int,
        ),
        total_units(Seq::<ServiceModel>::empty()) == 0,
        total_saturation(Seq::<ServiceModel>::empty()) == 0,
        highest_saturation(Seq::<ServiceModel>::empty()) == 0,
{
    assert(services.push(s).drop_last() =~= services);
}

/// A service counts for a state if and only if it has been observed and is in that state.
pub proof fn law_count_takes_in_a_service(
    services: Seq<ServiceModel>,
    s: ServiceModel,
    h: CapacityHealthState,
    config: CapacityPlanningConfig,
    estimates: Map<Seq<char>, TrendEstimate>,
)
    ensures
        ({
            let estimate = if estimates.dom().contains(s.service) {
                Some(estimates[s.service])
            } else {
                None
            };
            let counts = s.history.samples.len() > 0 && health_of(
                s.history.samples.last(),
                trend_of(s.history, config, estimate),
                config,
            ) == h;
            count_in(services.push(s), h, config, estimates) == count_in(
                services,
                h,
                config,
                estimates,
            ) + (if counts {
                1nat
            } else {
                0nat
            })
        }),
{
    let n = services.len() as int;
    lemma_count_step(services.push(s), n, h, config, estimates);
    assert(services.push(s).take(n) =~= services);
    assert(services.push(s).take(n + 1) =~= services.push(s));
}

/// The thresholds, limits and waiting times that hold where nothing else is configured.
pub proof fn law_defaults_in_numbers()
    ensures
        default_config().warning_threshold_bps == 8_000,
        default_config().critical_threshold_bps == 9_000,
        default_config().exhaustion_threshold_bps == 10_000,
        default_config().min_units == 1,
        default_config().max_units == 256,
        default_config().cooldown_secs == 30,
        default_config().history_window_capacity == 120,
        default_config().target_headroom_bps == 2_000,
        MAX_TRACKED_SERVICES == 256,
        MIN_SAMPLES_FOR_TREND == 3,
        CRITICAL_PATH_P99_MS == 100,
        AVAILABILITY_TARGET_BPS == 9_999,
        CANARY_SUCCESS_TARGET_BPS == 9_999,
{
}

/// The health states grow graver in this order: healthy, warning, critical, exhausted.
pub proof fn law_severity_is_an_order(a: CapacityHealthState, b: CapacityHealthState)
    ensures
        severity(CapacityHealthState::Healthy) < severity(CapacityHealthState::Warning) < severity(
            CapacityHealthState::Critical,
        ) < severity(CapacityHealthState::Exhausted),
        severity(a) == severity(b) ==> a == b,
{
}

/// The shortest runway is that of a service of the name reported, no service has a shorter one, and
/// no service before it has the same.
pub proof fn law_shortest_runway_is_the_first_least(
    services: Seq<ServiceModel>,
    name: ServiceName,
    secs: u64,
    config: CapacityPlanningConfig,
    estimates: Map<Seq<char>, TrendEstimate>,
)
    requires
        is_shortest(services, Some((name, secs)), config, estimates),
    ensures
        exists|i: int|
            0 <= i < services.len() && (#[trigger] services[i]).service == name@ && current_runway(
                services[i],
                config,
                estimates,
            ) == Some(secs) && forall|j: int|
                0 <= j < services.len() ==> (current_runway(
                    #[trigger] services[j],
                    config,
                    estimates,
                ) matches Some(other) ==> secs <= other && (j < i ==> secs < other)),
{
    let i = choose|i: int|
        0 <= i < services.len() && #[trigger] has_shortest_runway(services, i, config, estimates)
            && services[i].service == name@ && current_runway(services[i], config, estimates)
            == Some(secs);
    assert(services[i].service == name@);
}

} // verus!
