//! Graceful degradation with feature flags and capacity shedding.
//!
//! * Feature flags enable or disable named features, for all or for the canary cohort.
//! * Capacity shedding rejects load above a utilisation threshold.
//! * The degradation policy combines both into a [`DegradationDecision`].
//! * The canary gate checks a canary cohort before a feature is promoted.

use vstd::prelude::*;

use crate::arith::{least, scaled};
use crate::ordered_map::{kept, lemma_filter_ascending, listing, OrderedMap};
use crate::seqs::lemma_filter_step;

verus! {

/// P99 latency target for critical-path requests, in milliseconds.
pub const CRITICAL_PATH_P99_TARGET_MS: u64 = 100;

/// Availability target in basis points: 99.99%.
pub const AVAILABILITY_TARGET_BPS: u32 = 9_999;

/// Default capacity utilisation threshold (in basis points) from which on capacity shedding is
/// activated.
pub const DEFAULT_SHEDDING_THRESHOLD_BPS: u32 = 9_000;

/// Capacity utilisation that triggers hard-shed (full load rejection), in basis points.
pub const DEFAULT_HARD_SHED_THRESHOLD_BPS: u32 = 9_500;

/// Canary success-rate gate in basis points before a flag is promoted.
pub const CANARY_SUCCESS_TARGET_BPS: u32 = 9_999;

/// Maximum number of feature flags tracked in a single flag set.
pub const MAX_FEATURE_FLAGS: usize = 256;

/// Maximum number of deployment stages tracked concurrently.
pub const MAX_DEPLOYMENT_STAGES: usize = 16;

/// State of a single feature flag.
#[derive(Clone, Copy, Debug, Eq, PartialEq, Structural)]
pub enum FlagState {
    /// Feature is fully enabled for all traffic.
    Enabled,
    /// Feature is disabled; callers receive the degraded fallback.
    Disabled,
    /// Feature is enabled for the canary cohort only.
    Canary,
}

/// A named feature flag entry.
#[derive(Clone, Debug, Eq, PartialEq)]
pub struct FeatureFlag {
    /// Stable, lower-case-kebab-case identifier.
    pub name: String,
    /// Current runtime state.
    pub state: FlagState,
    /// Whether a security review was completed before this flag was modified.
    pub security_reviewed: bool,
}

/// The flag is served to this class of traffic.
pub open spec fn serves(state: FlagState, is_canary_traffic: bool) -> bool {
    match state {
        FlagState::Enabled => true,
        FlagState::Canary => is_canary_traffic,
        FlagState::Disabled => false,
    }
}

impl FeatureFlag {
    /// Creates a new flag in `Disabled` state pending security review.
    pub fn new(name: String) -> (r: Self)
        ensures
            r == (FeatureFlag { name, state: FlagState::Disabled, security_reviewed: false }),
    {
        FeatureFlag { name, state: FlagState::Disabled, security_reviewed: false }
    }

    /// Returns `true` when the flag should be served to the given class of traffic.
    pub fn is_active(&self, is_canary_traffic: bool) -> (r: bool)
        ensures
            r == serves(self.state, is_canary_traffic),
    {
        match self.state {
            FlagState::Enabled => true,
            FlagState::Canary => is_canary_traffic,
            FlagState::Disabled => false,
        }
    }
}

/// Errors returned by feature-flag operations.
#[derive(Clone, Copy, Debug, Eq, PartialEq)]
pub enum FlagError {
    /// The flag registry is at capacity.
    TooManyFlags,
    /// The requested flag was not found.
    FlagNotFound,
    /// A security review must be completed before activating a flag.
    SecurityReviewRequired,
    /// The flag name is empty.
    EmptyFlagName,
}

/// Registry of all feature flags for the system.
#[derive(Clone, Debug)]
pub struct FeatureFlagSet {
    flags: OrderedMap<String, FeatureFlag>,
}

/// Why a name cannot be put into a table with a limit, if it cannot.
pub open spec fn name_error<V>(m: Map<Seq<char>, V>, name: Seq<char>, limit: usize) -> Option<
    FlagError,
> {
    if name.len() == 0 {
        Some(FlagError::EmptyFlagName)
    } else if !m.dom().contains(name) && m.dom().len() >= limit {
        Some(FlagError::TooManyFlags)
    } else {
        None
    }
}

/// Why a flag cannot be given a state, if it cannot.
pub open spec fn state_error(
    flags: Map<Seq<char>, FeatureFlag>,
    name: Seq<char>,
    state: FlagState,
    security_reviewed: bool,
) -> Option<FlagError> {
    if !flags.dom().contains(name) {
        Some(FlagError::FlagNotFound)
    } else if state != FlagState::Disabled && !security_reviewed {
        Some(FlagError::SecurityReviewRequired)
    } else {
        None
    }
}

/// The flags after one has been registered.
pub open spec fn flag_registered(
    flags: Map<Seq<char>, FeatureFlag>,
    flag: FeatureFlag,
) -> Map<Seq<char>, FeatureFlag> {
    if name_error(flags, flag.name@, MAX_FEATURE_FLAGS) is None {
        flags.insert(flag.name@, flag)
    } else {
        flags
    }
}

/// The flags after the state of one has been set.
pub open spec fn state_changed(
    flags: Map<Seq<char>, FeatureFlag>,
    name: Seq<char>,
    state: FlagState,
    security_reviewed: bool,
) -> Map<Seq<char>, FeatureFlag> {
    if state_error(flags, name, state, security_reviewed) is None {
        flags.insert(name, FeatureFlag { state, security_reviewed, ..flags[name] })
    } else {
        flags
    }
}

/// The flag is in the state.
pub open spec fn in_state(state: FlagState) -> spec_fn(FeatureFlag) -> bool {
    |f: FeatureFlag| f.state == state
}

/// How many flags are in a state.
pub open spec fn count_in_state(flags: Map<Seq<char>, FeatureFlag>, state: FlagState) -> nat {
    kept(flags, in_state(state)).dom().len()
}

/// The named flag is registered and served to this class of traffic.
pub open spec fn flag_serves(
    flags: Map<Seq<char>, FeatureFlag>,
    name: Seq<char>,
    is_canary_traffic: bool,
) -> bool {
    flags.dom().contains(name) && serves(flags[name].state, is_canary_traffic)
}

/// A flag can only be activated after a security review.
pub proof fn law_activation_needs_review(
    flags: Map<Seq<char>, FeatureFlag>,
    name: Seq<char>,
    state: FlagState,
)
    requires
        state == FlagState::Enabled || state == FlagState::Canary,
    ensures
        state_error(flags, name, state, false) is Some,
{
}

/// Every registered flag is in exactly one of the three states.
pub proof fn law_states_partition_the_flags(flags: Map<Seq<char>, FeatureFlag>)
    requires
        flags.dom().finite(),
    ensures
        flags.dom().len() == count_in_state(flags, FlagState::Enabled) + count_in_state(
            flags,
            FlagState::Canary,
        ) + count_in_state(flags, FlagState::Disabled),
{
    let e = kept(flags, in_state(FlagState::Enabled)).dom();
    let c = kept(flags, in_state(FlagState::Canary)).dom();
    let d = kept(flags, in_state(FlagState::Disabled)).dom();
    assert(e.subset_of(flags.dom()));
    assert(c.subset_of(flags.dom()));
    assert(d.subset_of(flags.dom()));
    vstd::set_lib::lemma_len_subset(e, flags.dom());
    vstd::set_lib::lemma_len_subset(c, flags.dom());
    vstd::set_lib::lemma_len_subset(d, flags.dom());
    vstd::set_lib::lemma_set_disjoint_lens(e, c);
    vstd::set_lib::lemma_set_disjoint_lens(e + c, d);
    assert(e + c + d =~= flags.dom());
}

impl View for FeatureFlagSet {
    type V = Map<Seq<char>, FeatureFlag>;

    closed spec fn view(&self) -> Map<Seq<char>, FeatureFlag> {
        self.flags@
    }
}

impl FeatureFlagSet {
    /// Every flag stands under its own, non-empty name, and there are no more than may be tracked.
    pub closed spec fn wf(&self) -> bool {
        &&& self.flags.wf()
        &&& self.flags.count() <= MAX_FEATURE_FLAGS
        &&& forall|n: Seq<char>| #[trigger]
            self.flags@.dom().contains(n) ==> self.flags@[n].name@ == n && n.len() > 0
    }

    proof fn lemma_size(&self)
        requires
            self.flags.wf(),
        ensures
            self@.dom().finite(),
            self@.dom().len() == self.flags.count(),
    {
        self.flags.lemma_ascending();
        crate::ordered_map::lemma_map_size::<String, FeatureFlag>(self.flags.entries());
    }

    /// Every flag stands under its own, non-empty name, and there are no more than may be tracked.
    pub proof fn law_in_order(&self, name: Seq<char>)
        requires
            self.wf(),
        ensures
            self@.dom().finite(),
            self@.dom().len() <= MAX_FEATURE_FLAGS,
            self@.dom().contains(name) ==> self@[name].name@ == name && name.len() > 0,
    {
        self.lemma_size();
    }

    /// Creates an empty flag set.
    pub fn new() -> (r: Self)
        ensures
            r.wf(),
            r@ == Map::<Seq<char>, FeatureFlag>::empty(),
    {
        FeatureFlagSet { flags: OrderedMap::new() }
    }

    /// Registers a new flag or replaces an existing one.
    pub fn register(&mut self, flag: FeatureFlag) -> (r: Result<(), FlagError>)
        requires
            old(self).wf(),
        ensures
            final(self).wf(),
            r == match name_error(old(self)@, flag.name@, MAX_FEATURE_FLAGS) {
                Some(e) => Err(e),
                None => Ok(()),
            },
            final(self)@ == flag_registered(old(self)@, flag),
    {
        proof {
            self.lemma_size();
        }
        if flag.name.as_str().is_empty() {
            return Err(FlagError::EmptyFlagName);
        }
        if !self.flags.contains_key(&flag.name) && self.flags.len() >= MAX_FEATURE_FLAGS {
            return Err(FlagError::TooManyFlags);
        }
        let name: String = flag.name.clone();
        self.flags.insert(name, flag);
        Ok(())
    }

    /// Updates the state of an existing flag.
    ///
    /// Enabling or promoting to `Canary` requires `security_reviewed = true`.
    pub fn set_state(&mut self, name: &str, state: FlagState, security_reviewed: bool) -> (r: Result<
        (),
        FlagError,
    >)
        requires
            old(self).wf(),
        ensures
            final(self).wf(),
            r == match state_error(old(self)@, name@, state, security_reviewed) {
                Some(e) => Err(e),
                None => Ok(()),
            },
            final(self)@ == state_changed(old(self)@, name@, state, security_reviewed),
    {
        let ghost before = self.flags@;
        match self.flags.get_mut_text(name) {
            None => Err(FlagError::FlagNotFound),
            Some(flag) => {
                if state != FlagState::Disabled && !security_reviewed {
                    assert(before =~= before.insert(name@, *flag));
                    return Err(FlagError::SecurityReviewRequired);
                }
                flag.state = state;
                flag.security_reviewed = security_reviewed;
                Ok(())
            },
        }
    }

    /// Returns `true` if the named flag is active for the given traffic class.
    ///
    /// An unknown flag is treated as `Disabled`.
    pub fn is_active(&self, name: &str, is_canary_traffic: bool) -> (r: bool)
        requires
            self.wf(),
        ensures
            r == flag_serves(self@, name@, is_canary_traffic),
    {
        match self.flags.get_text(name) {
            Some(f) => f.is_active(is_canary_traffic),
            None => false,
        }
    }

    /// Returns the current state of a flag, or `None` if it is not registered.
    pub fn state(&self, name: &str) -> (r: Option<FlagState>)
        requires
            self.wf(),
        ensures
            r == if self@.dom().contains(name@) {
                Some(self@[name@].state)
            } else {
                None
            },
    {
        match self.flags.get_text(name) {
            Some(f) => Some(f.state),
            None => None,
        }
    }

    /// Returns the total number of registered flags.
    pub fn flag_count(&self) -> (r: usize)
        requires
            self.wf(),
        ensures
            r == self@.dom().len(),
    {
        self.flags.len()
    }

    /// The number of flags in a state.
    fn count_state(&self, state: FlagState) -> (r: usize)
        requires
            self.wf(),
        ensures
            r == count_in_state(self@, state),
            r <= self@.dom().len(),
    {
        let ghost s = self.flags.entries();
        let ghost q = |e: (Seq<char>, FeatureFlag)| in_state(state)(e.1);
        let n: usize = self.flags.len();
        let mut count: usize = 0;
        let mut i: usize = 0;
        proof {
            reveal(Seq::filter);
            assert(s.take(0) =~= Seq::<(Seq<char>, FeatureFlag)>::empty());
        }
        while i < n
            invariant
                self.wf(),
                s == self.flags.entries(),
                q == (|e: (Seq<char>, FeatureFlag)| in_state(state)(e.1)),
                n == s.len(),
                i <= n,
                count <= i,
                count == s.take(i as int).filter(q).len(),
            decreases n - i,
        {
            proof {
                lemma_filter_step(s, i as int, q);
            }
            if self.flags.value_at(i).state == state {
                count = count + 1;
            }
            i = i + 1;
        }
        proof {
            assert(s.take(n as int) =~= s);
            self.flags.lemma_ascending();
            lemma_filter_ascending::<String, FeatureFlag>(s, in_state(state));
            self.lemma_size();
        }
        count
    }

    /// Returns the number of flags currently in `Enabled` state.
    pub fn enabled_count(&self) -> (r: usize)
        requires
            self.wf(),
        ensures
            r == count_in_state(self@, FlagState::Enabled),
    {
        self.count_state(FlagState::Enabled)
    }

    /// Returns the number of flags currently in `Canary` state.
    pub fn canary_count(&self) -> (r: usize)
        requires
            self.wf(),
        ensures
            r == count_in_state(self@, FlagState::Canary),
    {
        self.count_state(FlagState::Canary)
    }
}

impl Default for FeatureFlagSet {
    fn default() -> (r: Self)
        ensures
            r.wf(),
            r@ == Map::<Seq<char>, FeatureFlag>::empty(),
    {
        Self::new()
    }
}

/// A snapshot of current capacity utilisation for one service.
#[derive(Clone, Copy, Debug, Eq, PartialEq)]
pub struct CapacitySensor {
    /// Current request-processing utilisation in basis points (0-10_000).
    pub utilisation_bps: u32,
    /// Observed P99 request latency in milliseconds.
    pub p99_latency_ms: u64,
    /// Number of in-flight requests at sample time.
    pub in_flight_requests: u64,
}

impl CapacitySensor {
    /// Returns `true` when utilisation reaches the soft-shedding threshold.
    pub fn exceeds_soft_threshold(&self, config: &DegradationConfig) -> (r: bool)
        ensures
            r == (self.utilisation_bps >= config.shedding_threshold_bps),
    {
        self.utilisation_bps >= config.shedding_threshold_bps
    }

    /// Returns `true` when utilisation reaches the hard-shedding threshold.
    pub fn exceeds_hard_threshold(&self, config: &DegradationConfig) -> (r: bool)
        ensures
            r == (self.utilisation_bps >= config.hard_shed_threshold_bps),
    {
        self.utilisation_bps >= config.hard_shed_threshold_bps
    }

    /// Returns `true` when P99 latency exceeds the critical-path target.
    pub fn latency_violated(&self) -> (r: bool)
        ensures
            r == (self.p99_latency_ms > CRITICAL_PATH_P99_TARGET_MS),
    {
        self.p99_latency_ms > CRITICAL_PATH_P99_TARGET_MS
    }
}

/// Policy configuration for the degradation engine.
#[derive(Clone, Copy, Debug, Eq, PartialEq)]
pub struct DegradationConfig {
    /// Utilisation (bps) at which soft shedding begins.
    pub shedding_threshold_bps: u32,
    /// Utilisation (bps) at which hard (full) shedding begins.
    pub hard_shed_threshold_bps: u32,
    /// Whether to honour feature flags at all.
    pub flags_enabled: bool,
}

impl Default for DegradationConfig {
    fn default() -> (r: Self)
        ensures
            r == (DegradationConfig {
                shedding_threshold_bps: DEFAULT_SHEDDING_THRESHOLD_BPS,
                hard_shed_threshold_bps: DEFAULT_HARD_SHED_THRESHOLD_BPS,
                flags_enabled: true,
            }),
    {
        DegradationConfig {
            shedding_threshold_bps: DEFAULT_SHEDDING_THRESHOLD_BPS,
            hard_shed_threshold_bps: DEFAULT_HARD_SHED_THRESHOLD_BPS,
            flags_enabled: true,
        }
    }
}

/// The outcome of a single policy evaluation.
#[derive(Clone, Copy, Debug, Eq, PartialEq)]
pub enum DegradationDecision {
    /// Serve the request in full with all features active.
    FullService,
    /// Serve a degraded fallback; the feature is disabled or capacity is soft-shedding.
    DegradedFallback,
    /// Reject the request immediately; capacity is hard-shedding.
    ShedLoad,
}

/// Stateless degradation policy evaluator.
pub struct DegradationPolicy;

/// The decision for a request, by these rules in order: hard shed, flags disabled globally, flag
/// inactive, soft shed or latency violated, full service.
pub open spec fn decision(
    flag_name: Seq<char>,
    is_canary_traffic: bool,
    sensor: CapacitySensor,
    flags: Map<Seq<char>, FeatureFlag>,
    config: DegradationConfig,
) -> DegradationDecision {
    if sensor.utilisation_bps >= config.hard_shed_threshold_bps {
        DegradationDecision::ShedLoad
    } else if !config.flags_enabled {
        DegradationDecision::DegradedFallback
    } else if !flag_serves(flags, flag_name, is_canary_traffic) {
        DegradationDecision::DegradedFallback
    } else if sensor.utilisation_bps >= config.shedding_threshold_bps || sensor.p99_latency_ms
        > CRITICAL_PATH_P99_TARGET_MS {
        DegradationDecision::DegradedFallback
    } else {
        DegradationDecision::FullService
    }
}

/// Hard shedding always wins.
pub proof fn law_hard_shed_beats_everything(
    flag_name: Seq<char>,
    is_canary_traffic: bool,
    sensor: CapacitySensor,
    flags: Map<Seq<char>, FeatureFlag>,
    config: DegradationConfig,
)
    ensures
        decision(flag_name, is_canary_traffic, sensor, flags, config)
            == DegradationDecision::ShedLoad <==> sensor.utilisation_bps
            >= config.hard_shed_threshold_bps,
{
}

/// A feature is served in full only where its flag is active and there is no pressure at all.
pub proof fn law_full_service_needs_everything(
    flag_name: Seq<char>,
    is_canary_traffic: bool,
    sensor: CapacitySensor,
    flags: Map<Seq<char>, FeatureFlag>,
    config: DegradationConfig,
)
    ensures
        decision(flag_name, is_canary_traffic, sensor, flags, config)
            == DegradationDecision::FullService <==> {
            &&& config.flags_enabled
            &&& flag_serves(flags, flag_name, is_canary_traffic)
            &&& sensor.utilisation_bps < config.shedding_threshold_bps
            &&& sensor.utilisation_bps < config.hard_shed_threshold_bps
            &&& sensor.p99_latency_ms <= CRITICAL_PATH_P99_TARGET_MS
        },
{
}

impl DegradationPolicy {
    /// Evaluates a request against the capacity sensor and flag registry.
    pub fn evaluate(
        flag_name: &str,
        is_canary_traffic: bool,
        sensor: &CapacitySensor,
        flags: &FeatureFlagSet,
        config: &DegradationConfig,
    ) -> (r: DegradationDecision)
        requires
            flags.wf(),
        ensures
            r == decision(flag_name@, is_canary_traffic, *sensor, flags@, *config),
    {
        if sensor.exceeds_hard_threshold(config) {
            return DegradationDecision::ShedLoad;
        }
        if !config.flags_enabled {
            return DegradationDecision::DegradedFallback;
        }
        if !flags.is_active(flag_name, is_canary_traffic) {
            return DegradationDecision::DegradedFallback;
        }
        if sensor.exceeds_soft_threshold(config) || sensor.latency_violated() {
            return DegradationDecision::DegradedFallback;
        }
        DegradationDecision::FullService
    }
}

/// System-wide degradation metrics exported to dashboards and alerting.
#[derive(Clone, Debug, Eq, PartialEq)]
pub struct DegradationMetrics {
    /// Total flags registered.
    pub flags_total: usize,
    /// Flags in `Enabled` state.
    pub flags_enabled: usize,
    /// Flags in `Canary` state.
    pub flags_canary: usize,
    /// Flags in `Disabled` state.
    pub flags_disabled: usize,
    /// Current capacity utilisation in basis points.
    pub utilisation_bps: u32,
    /// Whether soft shedding is currently active.
    pub soft_shedding_active: bool,
    /// Whether hard shedding is currently active.
    pub hard_shedding_active: bool,
    /// Whether P99 latency has exceeded the critical-path target.
    pub latency_violated: bool,
    /// Availability target (from operational constants).
    pub availability_target_bps: u32,
    /// P99 latency target (from operational constants).
    pub p99_target_ms: u64,
}

/// Produces a system-wide metrics snapshot from a flag set and capacity sensor.
pub fn dashboard_snapshot(
    flags: &FeatureFlagSet,
    sensor: &CapacitySensor,
    config: &DegradationConfig,
) -> (r: DegradationMetrics)
    requires
        flags.wf(),
    ensures
        r.flags_total == flags@.dom().len(),
        r.flags_enabled == count_in_state(flags@, FlagState::Enabled),
        r.flags_canary == count_in_state(flags@, FlagState::Canary),
        r.flags_disabled == count_in_state(flags@, FlagState::Disabled),
        r.utilisation_bps == sensor.utilisation_bps,
        r.soft_shedding_active == (sensor.utilisation_bps >= config.shedding_threshold_bps),
        r.hard_shedding_active == (sensor.utilisation_bps >= config.hard_shed_threshold_bps),
        r.latency_violated == (sensor.p99_latency_ms > CRITICAL_PATH_P99_TARGET_MS),
        r.availability_target_bps == AVAILABILITY_TARGET_BPS,
        r.p99_target_ms == CRITICAL_PATH_P99_TARGET_MS,
{
    proof {
        flags.lemma_size();
        law_states_partition_the_flags(flags@);
    }
    let flags_total: usize = flags.flag_count();
    let flags_enabled: usize = flags.enabled_count();
    let flags_canary: usize = flags.canary_count();
    let flags_disabled: usize = flags_total.saturating_sub(flags_enabled + flags_canary);
    DegradationMetrics {
        flags_total,
        flags_enabled,
        flags_canary,
        flags_disabled,
        utilisation_bps: sensor.utilisation_bps,
        soft_shedding_active: sensor.exceeds_soft_threshold(config),
        hard_shedding_active: sensor.exceeds_hard_threshold(config),
        latency_violated: sensor.latency_violated(),
        availability_target_bps: AVAILABILITY_TARGET_BPS,
        p99_target_ms: CRITICAL_PATH_P99_TARGET_MS,
    }
}

/// Analysis of a canary deployment before promoting a feature flag to `Enabled` state.
#[derive(Clone, Debug, Eq, PartialEq)]
pub struct CanaryGate {
    /// Total requests handled by the canary cohort.
    pub requests: u64,
    /// Requests that completed successfully.
    pub successful_requests: u64,
    /// Observed P99 latency for canary traffic in milliseconds.
    pub p99_latency_ms: u64,
    /// Whether a security review was signed off for this promotion.
    pub security_review_passed: bool,
}

/// Errors returned by canary gate evaluation.
#[derive(Clone, Copy, Debug, Eq, PartialEq)]
pub enum CanaryError {
    /// The canary did not meet the success-rate or latency gate.
    CanaryFailed,
    /// A security review must be completed before promotion.
    SecurityReviewRequired,
}

/// The success rate of a canary in basis points, at most all of them.
pub open spec fn success_rate(successful: u64, requests: u64) -> u32 {
    if requests == 0 {
        0
    } else {
        least(successful * 10_000 / requests as int, 10_000) as u32
    }
}

/// Why a canary does not pass, if it does not.
pub open spec fn gate_error(g: CanaryGate) -> Option<CanaryError> {
    if !g.security_review_passed {
        Some(CanaryError::SecurityReviewRequired)
    } else if success_rate(g.successful_requests, g.requests) < CANARY_SUCCESS_TARGET_BPS
        || g.p99_latency_ms > CRITICAL_PATH_P99_TARGET_MS {
        Some(CanaryError::CanaryFailed)
    } else {
        None
    }
}

impl CanaryGate {
    /// Returns the canary success rate in basis points.
    pub fn success_rate_bps(&self) -> (r: u32)
        ensures
            r == success_rate(self.successful_requests, self.requests),
            r <= 10_000,
    {
        if self.requests == 0 {
            return 0;
        }
        let rate: u64 = scaled(self.successful_requests, 10_000, self.requests);
        if rate <= 10_000 {
            rate as u32
        } else {
            10_000
        }
    }

    /// Returns `Ok(())` when the canary meets all release criteria: security review passed,
    /// success rate and P99 latency within target.
    pub fn passes_release_gate(&self) -> (r: Result<(), CanaryError>)
        ensures
            r == match gate_error(*self) {
                Some(e) => Err(e),
                None => Ok(()),
            },
    {
        if !self.security_review_passed {
            return Err(CanaryError::SecurityReviewRequired);
        }
        if self.success_rate_bps() < CANARY_SUCCESS_TARGET_BPS || self.p99_latency_ms
            > CRITICAL_PATH_P99_TARGET_MS {
            return Err(CanaryError::CanaryFailed);
        }
        Ok(())
    }
}

/// Coarse deployment stage for blue-green and canary rollouts.
#[derive(Clone, Copy, Debug, Eq, PartialEq, Ord, PartialOrd)]
pub enum DeploymentStage {
    Development,
    BlueGreenShadow,
    CanaryOnePercent,
    CanaryTenPercent,
    FullRollout,
}

/// The stage after a stage; the last one stays.
pub open spec fn next_stage(s: DeploymentStage) -> DeploymentStage {
    match s {
        DeploymentStage::Development => DeploymentStage::BlueGreenShadow,
        DeploymentStage::BlueGreenShadow => DeploymentStage::CanaryOnePercent,
        DeploymentStage::CanaryOnePercent => DeploymentStage::CanaryTenPercent,
        DeploymentStage::CanaryTenPercent => DeploymentStage::FullRollout,
        DeploymentStage::FullRollout => DeploymentStage::FullRollout,
    }
}

/// The stage carries canary traffic.
pub open spec fn carries_canary(s: DeploymentStage) -> bool {
    s is CanaryOnePercent || s is CanaryTenPercent
}

impl DeploymentStage {
    /// Returns the next stage in the promotion sequence.
    pub fn next(self) -> (r: Self)
        ensures
            r == next_stage(self),
    {
        match self {
            DeploymentStage::Development => DeploymentStage::BlueGreenShadow,
            DeploymentStage::BlueGreenShadow => DeploymentStage::CanaryOnePercent,
            DeploymentStage::CanaryOnePercent => DeploymentStage::CanaryTenPercent,
            DeploymentStage::CanaryTenPercent => DeploymentStage::FullRollout,
            DeploymentStage::FullRollout => DeploymentStage::FullRollout,
        }
    }

    /// Returns `true` for stages that carry canary traffic.
    pub fn is_canary(self) -> (r: bool)
        ensures
            r == carries_canary(self),
    {
        match self {
            DeploymentStage::CanaryOnePercent | DeploymentStage::CanaryTenPercent => true,
            _ => false,
        }
    }
}

/// Per-feature deployment stage tracking.
#[derive(Clone, Debug)]
pub struct DeploymentStageRegistry {
    stages: OrderedMap<String, DeploymentStage>,
}

/// The stage of a feature: development, where it is not registered.
pub open spec fn stage_of(stages: Map<Seq<char>, DeploymentStage>, feature: Seq<char>) -> DeploymentStage {
    if stages.dom().contains(feature) {
        stages[feature]
    } else {
        DeploymentStage::Development
    }
}

/// Why a feature cannot be promoted, if it cannot: from a canary stage it takes a canary that
/// passes.
pub open spec fn promotion_error(
    stages: Map<Seq<char>, DeploymentStage>,
    feature: Seq<char>,
    canary: Option<&CanaryGate>,
) -> Option<CanaryError> {
    if carries_canary(stage_of(stages, feature)) {
        match canary {
            Some(gate) => gate_error(*gate),
            None => Some(CanaryError::CanaryFailed),
        }
    } else {
        None
    }
}

/// The stages after that of a feature has been set.
pub open spec fn stage_set(
    stages: Map<Seq<char>, DeploymentStage>,
    feature: Seq<char>,
    stage: DeploymentStage,
) -> Map<Seq<char>, DeploymentStage> {
    if name_error(stages, feature, MAX_DEPLOYMENT_STAGES) is None {
        stages.insert(feature, stage)
    } else {
        stages
    }
}

/// The stages after a feature was to be promoted.
pub open spec fn promoted(
    stages: Map<Seq<char>, DeploymentStage>,
    feature: Seq<char>,
    canary: Option<&CanaryGate>,
) -> Map<Seq<char>, DeploymentStage> {
    if promotion_error(stages, feature, canary) is None {
        stages.insert(feature, next_stage(stage_of(stages, feature)))
    } else {
        stages
    }
}

/// A feature reaches the full rollout only through a canary that passes.
pub proof fn law_full_rollout_needs_a_canary(
    stages: Map<Seq<char>, DeploymentStage>,
    feature: Seq<char>,
    canary: Option<&CanaryGate>,
)
    requires
        promotion_error(stages, feature, canary) is None,
        next_stage(stage_of(stages, feature)) is FullRollout,
        !(stage_of(stages, feature) is FullRollout),
    ensures
        canary is Some,
        gate_error(*canary->0) is None,
{
}

impl View for DeploymentStageRegistry {
    type V = Map<Seq<char>, DeploymentStage>;

    closed spec fn view(&self) -> Map<Seq<char>, DeploymentStage> {
        self.stages@
    }
}

impl DeploymentStageRegistry {
    /// The table is in order.
    pub closed spec fn wf(&self) -> bool {
        self.stages.wf()
    }

    /// Finitely many features have a stage.
    pub proof fn law_finite(&self)
        requires
            self.wf(),
        ensures
            self@.dom().finite(),
    {
        self.stages.lemma_finite();
    }

    /// Creates an empty registry.
    pub fn new() -> (r: Self)
        ensures
            r.wf(),
            r@ == Map::<Seq<char>, DeploymentStage>::empty(),
    {
        DeploymentStageRegistry { stages: OrderedMap::new() }
    }

    /// Sets the deployment stage for a named feature.
    pub fn set_stage(&mut self, feature: String, stage: DeploymentStage) -> (r: Result<(), FlagError>)
        requires
            old(self).wf(),
        ensures
            final(self).wf(),
            r == match name_error(old(self)@, feature@, MAX_DEPLOYMENT_STAGES) {
                Some(e) => Err(e),
                None => Ok(()),
            },
            final(self)@ == stage_set(old(self)@, feature@, stage),
    {
        if feature.as_str().is_empty() {
            return Err(FlagError::EmptyFlagName);
        }
        if !self.stages.contains_key(&feature) && self.stages.len() >= MAX_DEPLOYMENT_STAGES {
            return Err(FlagError::TooManyFlags);
        }
        self.stages.insert(feature, stage);
        Ok(())
    }

    /// Returns the current stage for a feature, or `None` if not registered.
    pub fn stage(&self, feature: &str) -> (r: Option<DeploymentStage>)
        requires
            self.wf(),
        ensures
            r == if self@.dom().contains(feature@) {
                Some(self@[feature@])
            } else {
                None
            },
    {
        match self.stages.get_text(feature) {
            Some(stage) => Some(*stage),
            None => None,
        }
    }

    /// Advances the stage for a named feature, gated by a canary analysis.
    ///
    /// Promotion from any canary stage requires the canary to pass the release gate. Promotion
    /// from an earlier stage is unconditional.
    pub fn promote(&mut self, feature: &str, canary: Option<&CanaryGate>) -> (r: Result<
        DeploymentStage,
        CanaryError,
    >)
        requires
            old(self).wf(),
        ensures
            final(self).wf(),
            r == match promotion_error(old(self)@, feature@, canary) {
                Some(e) => Err(e),
                None => Ok(next_stage(stage_of(old(self)@, feature@))),
            },
            final(self)@ == promoted(old(self)@, feature@, canary),
    {
        let current: DeploymentStage = match self.stage(feature) {
            Some(stage) => stage,
            None => DeploymentStage::Development,
        };
        if current.is_canary() {
            match canary {
                Some(gate) => match gate.passes_release_gate() {
                    Ok(()) => {},
                    Err(e) => {
                        return Err(e);
                    },
                },
                None => {
                    return Err(CanaryError::CanaryFailed);
                },
            }
        }
        let next: DeploymentStage = current.next();
        self.stages.insert(feature.to_owned(), next);
        Ok(next)
    }

    /// Returns the number of features tracked.
    pub fn feature_count(&self) -> (r: usize)
        requires
            self.wf(),
        ensures
            r == self@.dom().len(),
    {
        self.stages.len()
    }

    /// Returns a sorted snapshot of all (feature, stage) pairs.
    pub fn snapshot(&self) -> (r: Vec<(String, DeploymentStage)>)
        requires
            self.wf(),
        ensures
            r@.map_values(|p: (String, DeploymentStage)| (p.0@, p.1)) == listing::<
                String,
                DeploymentStage,
            >(self@),
    {
        let ghost s = self.stages.entries();
        let n: usize = self.stages.len();
        let mut all: Vec<(String, DeploymentStage)> = Vec::new();
        let mut i: usize = 0;
        while i < n
            invariant
                self.wf(),
                s == self.stages.entries(),
                n == s.len(),
                i <= n,
                all@.len() == i,
                forall|j: int|
                    0 <= j < i ==> (#[trigger] all@[j]).0@ == s[j].0 && all@[j].1 == s[j].1,
            decreases n - i,
        {
            all.push((self.stages.key_at(i).clone(), *self.stages.value_at(i)));
            i = i + 1;
        }
        proof {
            self.stages.lemma_listing();
            assert(all@.map_values(|p: (String, DeploymentStage)| (p.0@, p.1)) =~= s);
        }
        all
    }
}

impl Default for DeploymentStageRegistry {
    fn default() -> (r: Self)
        ensures
            r.wf(),
            r@ == Map::<Seq<char>, DeploymentStage>::empty(),
    {
        Self::new()
    }
}

/// A flag that is on serves all traffic, one in canary the canary traffic, and one that is off or
/// not registered none.
pub proof fn law_who_is_served(
    flags: Map<Seq<char>, FeatureFlag>,
    name: Seq<char>,
    is_canary_traffic: bool,
)
    ensures
        flag_serves(flags, name, is_canary_traffic) <==> flags.dom().contains(name) && (
        flags[name].state == FlagState::Enabled || (flags[name].state == FlagState::Canary
            && is_canary_traffic)),
{
}

/// A flag with a name is taken in while there are fewer than 256, or in place of one of the same
/// name; it stands as it was handed in, and the others stay.
pub proof fn law_flag_is_registered_as_handed_in(
    flags: Map<Seq<char>, FeatureFlag>,
    flag: FeatureFlag,
    other: Seq<char>,
)
    requires
        other != flag.name@,
    ensures
        ({
            let t = flag_registered(flags, flag);
            let e = name_error(flags, flag.name@, MAX_FEATURE_FLAGS);
            let room = flags.dom().contains(flag.name@) || flags.dom().len() < 256;
            &&& e == Some(FlagError::EmptyFlagName) <==> flag.name@.len() == 0
            &&& e == Some(FlagError::TooManyFlags) <==> flag.name@.len() > 0 && !room
            &&& e is None <==> flag.name@.len() > 0 && room
            &&& e is None ==> t.dom().contains(flag.name@) && t[flag.name@] == flag
            &&& e is Some ==> t == flags
            &&& t.dom().contains(other) == flags.dom().contains(other)
            &&& t[other] == flags[other]
        }),
{
}

/// The state of a flag can be set where the flag is known and either goes off or has been
/// reviewed; the flag then has that state and review, keeps its name, and the others stay.
pub proof fn law_state_is_set_for_one_flag(
    flags: Map<Seq<char>, FeatureFlag>,
    name: Seq<char>,
    state: FlagState,
    security_reviewed: bool,
    other: Seq<char>,
)
    requires
        other != name,
    ensures
        ({
            let t = state_changed(flags, name, state, security_reviewed);
            let e = state_error(flags, name, state, security_reviewed);
            let known = flags.dom().contains(name);
            let allowed = state == FlagState::Disabled || security_reviewed;
            &&& e == Some(FlagError::FlagNotFound) <==> !known
            &&& e == Some(FlagError::SecurityReviewRequired) <==> known && !allowed
            &&& e is None <==> known && allowed
            &&& e is None ==> {
                &&& t[name].state == state
                &&& t[name].security_reviewed == security_reviewed
                &&& t[name].name == flags[name].name
            }
            &&& e is Some ==> t == flags
            &&& t.dom() == flags.dom()
            &&& t[other] == flags[other]
        }),
{
    assert(state_changed(flags, name, state, security_reviewed).dom() =~= flags.dom());
}

/// One more flag counts in its own state alone.
pub proof fn law_count_takes_in_a_flag(
    flags: Map<Seq<char>, FeatureFlag>,
    name: Seq<char>,
    flag: FeatureFlag,
    state: FlagState,
)
    requires
        flags.dom().finite(),
        !flags.dom().contains(name),
    ensures
        count_in_state(Map::<Seq<char>, FeatureFlag>::empty(), state) == 0,
        count_in_state(flags.insert(name, flag), state) == count_in_state(flags, state) + (
        if flag.state == state {
            1nat
        } else {
            0nat
        }),
{
    let m = flags.insert(name, flag);
    let p = in_state(state);
    let before = kept(flags, p).dom();
    assert(before.subset_of(flags.dom()));
    vstd::set_lib::lemma_len_subset(before, flags.dom());
    assert(kept(Map::<Seq<char>, FeatureFlag>::empty(), p).dom() =~= Set::empty());
    if flag.state == state {
        assert(kept(m, p).dom() =~= before.insert(name));
    } else {
        assert(kept(m, p).dom() =~= before);
    }
}

/// Load is shed from the hard threshold on. Below it a request is served in full where flags are
/// on, its flag serves it, the soft threshold is not reached and the tail latency is at most 100
/// milliseconds; otherwise it falls back.
pub proof fn law_decision_in_numbers(
    flag_name: Seq<char>,
    is_canary_traffic: bool,
    sensor: CapacitySensor,
    flags: Map<Seq<char>, FeatureFlag>,
    config: DegradationConfig,
)
    ensures
        ({
            let d = decision(flag_name, is_canary_traffic, sensor, flags, config);
            let shed = sensor.utilisation_bps >= config.hard_shed_threshold_bps;
            let full = config.flags_enabled && flag_serves(flags, flag_name, is_canary_traffic)
                && sensor.utilisation_bps < config.shedding_threshold_bps && sensor.p99_latency_ms
                <= 100;
            &&& d == DegradationDecision::ShedLoad <==> shed
            &&& d == DegradationDecision::FullService <==> !shed && full
            &&& d == DegradationDecision::DegradedFallback <==> !shed && !full
        }),
{
}

/// The success rate is the share of successful requests in basis points, rounded down and at most
/// 10,000. A canary may be released that was reviewed and has requests, of which at least 99.99 in
/// a hundred succeeded, and a tail latency of at most 100 milliseconds.
pub proof fn law_gate_in_numbers(g: CanaryGate)
    ensures
        ({
            let rate = success_rate(g.successful_requests, g.requests);
            let met = g.requests > 0 && g.successful_requests * 10_000 >= 9_999 * g.requests
                && g.p99_latency_ms <= 100;
            &&& g.requests == 0 ==> rate == 0
            &&& 0 < g.requests && g.successful_requests <= g.requests ==> rate * g.requests
                <= g.successful_requests * 10_000 < (rate + 1) * g.requests
            &&& 0 < g.requests < g.successful_requests ==> rate == 10_000
            &&& gate_error(g) == Some(CanaryError::SecurityReviewRequired)
                <==> !g.security_review_passed
            &&& gate_error(g) == Some(CanaryError::CanaryFailed) <==> g.security_review_passed
                && !met
            &&& gate_error(g) is None <==> g.security_review_passed && met
        }),
{
    let n = g.requests as int;
    let x = g.successful_requests * 10_000;
    if n > 0 {
        vstd::arithmetic::div_mod::lemma_fundamental_div_mod(x, n);
        vstd::arithmetic::div_mod::lemma_mod_bound(x, n);
        let q = x / n;
        assert(n * q == q * n) by (nonlinear_arith);
        assert((q + 1) * n == q * n + n) by (nonlinear_arith);
        assert(q >= 0) by (nonlinear_arith)
            requires
                x >= 0,
                n > 0,
                q == x / n,
        ;
        assert(q >= 9_999 <==> x >= 9_999 * n) by (nonlinear_arith)
            requires
                n > 0,
                q * n <= x < q * n + n,
        ;
        assert(q <= 10_000 <==> x < 10_001 * n) by (nonlinear_arith)
            requires
                n > 0,
                q * n <= x < q * n + n,
        ;
        assert(q >= 10_000 <==> x >= 10_000 * n) by (nonlinear_arith)
            requires
                n > 0,
                q * n <= x < q * n + n,
        ;
    }
}

/// A feature goes from development over the shadow, one percent and ten percent to everyone, one
/// stage at a time, and starts in development where no stage is set. Leaving either canary stage
/// takes a gate that is passed; a refusal changes nothing, and no other feature is touched.
pub proof fn law_promotion_climbs_one_stage(
    stages: Map<Seq<char>, DeploymentStage>,
    feature: Seq<char>,
    canary: Option<&CanaryGate>,
    other: Seq<char>,
)
    requires
        other != feature,
    ensures
        ({
            let t = promoted(stages, feature, canary);
            let e = promotion_error(stages, feature, canary);
            let now = stage_of(stages, feature);
            let gated = now is CanaryOnePercent || now is CanaryTenPercent;
            &&& carries_canary(now) <==> gated
            &&& !stages.dom().contains(feature) ==> now is Development
            &&& stages.dom().contains(feature) ==> now == stages[feature]
            &&& !gated ==> e is None
            &&& gated && canary is None ==> e == Some(CanaryError::CanaryFailed)
            &&& gated && canary is Some ==> e == gate_error(*canary->0)
            &&& e is Some ==> t == stages
            &&& e is None ==> {
                &&& t.dom().contains(feature)
                &&& now is Development ==> t[feature] is BlueGreenShadow
                &&& now is BlueGreenShadow ==> t[feature] is CanaryOnePercent
                &&& now is CanaryOnePercent ==> t[feature] is CanaryTenPercent
                &&& now is CanaryTenPercent ==> t[feature] is FullRollout
                &&& now is FullRollout ==> t[feature] is FullRollout
                &&& t[feature] == next_stage(now)
            }
            &&& t.dom().contains(other) == stages.dom().contains(other)
            &&& t[other] == stages[other]
        }),
{
}

/// A stage is set for a feature with a name while fewer than 16 features have one, or in place of
/// the stage it has; no other feature is touched.
pub proof fn law_stage_is_set_for_one_feature(
    stages: Map<Seq<char>, DeploymentStage>,
    feature: Seq<char>,
    stage: DeploymentStage,
    other: Seq<char>,
)
    requires
        other != feature,
    ensures
        ({
            let t = stage_set(stages, feature, stage);
            let e = name_error(stages, feature, MAX_DEPLOYMENT_STAGES);
            &&& e is None <==> feature.len() > 0 && (stages.dom().contains(feature)
                || stages.dom().len() < 16)
            &&& e is None ==> t.dom().contains(feature) && t[feature] == stage
            &&& e is Some ==> t == stages
            &&& t.dom().contains(other) == stages.dom().contains(other)
            &&& t[other] == stages[other]
        }),
{
}

/// Shedding starts at 90 percent and hardens at 95 where nothing else is configured.
pub proof fn law_defaults_in_numbers()
    ensures
        DEFAULT_SHEDDING_THRESHOLD_BPS == 9_000,
        DEFAULT_HARD_SHED_THRESHOLD_BPS == 9_500,
        AVAILABILITY_TARGET_BPS == 9_999,
        CRITICAL_PATH_P99_TARGET_MS == 100,
{
}

} // verus!
