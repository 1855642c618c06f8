//! Configuration management with schema validation and deterministic hot reload.
//!
//! Validation is pure and bounded by the number of fields in [`SystemConfig`].

use vstd::prelude::*;

use crate::byte_order::text_equal;
use crate::seqs::{lemma_filter_step, lemma_map_values_push};

verus! {

pub const MAX_SERVICE_NAME_LEN: usize = 64;

pub const MAX_SERVICES: usize = 64;

pub const MAX_CONFIG_VERSION_JUMP: u64 = 1_000;

#[derive(Clone, Debug, Eq, PartialEq)]
pub struct ServiceConfig {
    pub name: String,
    pub enabled: bool,
    pub critical_path_timeout_ms: u64,
    pub max_inflight_requests: u32,
    pub hot_reload: bool,
}

#[derive(Clone, Debug, Eq, PartialEq)]
pub struct MonitoringConfig {
    pub metrics_enabled: bool,
    pub alerting_enabled: bool,
    pub dashboard_refresh_seconds: u64,
    pub p99_latency_alert_ms: u64,
}

#[derive(Clone, Debug, Eq, PartialEq)]
pub struct DeploymentConfig {
    pub blue_green_enabled: bool,
    pub canary_percent: u8,
    pub canary_error_budget_bps: u32,
}

#[derive(Clone, Debug, Eq, PartialEq)]
pub struct SystemConfig {
    pub version: u64,
    pub availability_target_bps: u32,
    pub critical_path_p99_ms: u64,
    pub security_review_required: bool,
    pub services: Vec<ServiceConfig>,
    pub monitoring: MonitoringConfig,
    pub deployment: DeploymentConfig,
}

#[derive(Clone, Debug, Eq, PartialEq)]
pub enum ConfigError {
    EmptyServiceName,
    ServiceNameTooLong,
    DuplicateServiceName,
    TooManyServices,
    InvalidAvailabilityTarget,
    CriticalPathTargetTooHigh,
    ServiceTimeoutExceedsTarget,
    ZeroInflightLimit,
    MonitoringDisabled,
    InvalidDashboardRefresh,
    InvalidCanaryPercent,
    InvalidCanaryErrorBudget,
    SecurityReviewMissing,
    NonMonotonicVersion,
    VersionJumpTooLarge,
    HotReloadDisabled(String),
}

#[derive(Debug, Eq, PartialEq)]
pub struct ConfigChangeEvent {
    pub previous_version: u64,
    pub current_version: u64,
    pub changed_services: Vec<String>,
    pub canary_percent: u8,
}

/// What a change event says.
pub struct ChangeModel {
    pub previous_version: u64,
    pub current_version: u64,
    pub changed_services: Seq<String>,
    pub canary_percent: u8,
}

impl View for ConfigChangeEvent {
    type V = ChangeModel;

    open spec fn view(&self) -> ChangeModel {
        ChangeModel {
            previous_version: self.previous_version,
            current_version: self.current_version,
            changed_services: self.changed_services@,
            canary_percent: self.canary_percent,
        }
    }
}

impl Clone for ConfigChangeEvent {
    fn clone(&self) -> (r: Self)
        ensures
            r@ == self@,
    {
        let mut names: Vec<String> = Vec::new();
        let mut i: usize = 0;
        while i < self.changed_services.len()
            invariant
                i <= self.changed_services@.len(),
                names@ == self.changed_services@.take(i as int),
            decreases self.changed_services@.len() - i,
        {
            names.push(self.changed_services[i].clone());
            i = i + 1;
            assert(names@ =~= self.changed_services@.take(i as int));
        }
        assert(names@ =~= self.changed_services@);
        ConfigChangeEvent {
            previous_version: self.previous_version,
            current_version: self.current_version,
            changed_services: names,
            canary_percent: self.canary_percent,
        }
    }
}

#[derive(Clone, Debug, Eq, PartialEq)]
pub struct ConfigManager {
    active: SystemConfig,
    history: Vec<ConfigChangeEvent>,
}

/// What a manager holds.
pub struct ManagerState {
    pub active: SystemConfig,
    pub history: Seq<ChangeModel>,
}

/// What is wrong with a configuration apart from its services, if anything: the first of these
/// that applies.
pub open spec fn system_error(c: SystemConfig) -> Option<ConfigError> {
    if c.services@.len() > MAX_SERVICES {
        Some(ConfigError::TooManyServices)
    } else if !(9_999 <= c.availability_target_bps <= 10_000) {
        Some(ConfigError::InvalidAvailabilityTarget)
    } else if c.critical_path_p99_ms == 0 || c.critical_path_p99_ms > 100 {
        Some(ConfigError::CriticalPathTargetTooHigh)
    } else if !c.security_review_required {
        Some(ConfigError::SecurityReviewMissing)
    } else if !c.monitoring.metrics_enabled || !c.monitoring.alerting_enabled {
        Some(ConfigError::MonitoringDisabled)
    } else if c.monitoring.dashboard_refresh_seconds == 0 || c.monitoring.dashboard_refresh_seconds
        > 300 {
        Some(ConfigError::InvalidDashboardRefresh)
    } else if c.monitoring.p99_latency_alert_ms > c.critical_path_p99_ms {
        Some(ConfigError::CriticalPathTargetTooHigh)
    } else if c.deployment.canary_percent > 100 {
        Some(ConfigError::InvalidCanaryPercent)
    } else if c.deployment.canary_error_budget_bps > 10_000 {
        Some(ConfigError::InvalidCanaryErrorBudget)
    } else {
        None
    }
}

/// A service of this name comes before place `n`.
pub open spec fn named_before(services: Seq<ServiceConfig>, n: int, name: Seq<char>) -> bool {
    exists|j: int| 0 <= j < n && (#[trigger] services[j]).name@ == name
}

/// What is wrong with the service at a place, if anything: the first of these that applies.
pub open spec fn service_error(services: Seq<ServiceConfig>, target_ms: u64, i: int) -> Option<
    ConfigError,
> {
    let s = services[i];
    if s.name@.len() == 0 {
        Some(ConfigError::EmptyServiceName)
    } else if vstd::utf8::encode_utf8(s.name@).len() > MAX_SERVICE_NAME_LEN {
        Some(ConfigError::ServiceNameTooLong)
    } else if named_before(services, i, s.name@) {
        Some(ConfigError::DuplicateServiceName)
    } else if s.critical_path_timeout_ms > target_ms {
        Some(ConfigError::ServiceTimeoutExceedsTarget)
    } else if s.max_inflight_requests == 0 {
        Some(ConfigError::ZeroInflightLimit)
    } else {
        None
    }
}

/// The error of the first of the first `n` services that has one.
pub open spec fn services_error(services: Seq<ServiceConfig>, target_ms: u64, n: nat) -> Option<
    ConfigError,
>
    decreases n,
{
    if n == 0 {
        None
    } else {
        match services_error(services, target_ms, (n - 1) as nat) {
            Some(e) => Some(e),
            None => service_error(services, target_ms, n - 1),
        }
    }
}

/// What is wrong with a configuration, if anything.
pub open spec fn config_problem(c: SystemConfig) -> Option<ConfigError> {
    match system_error(c) {
        Some(e) => Some(e),
        None => services_error(c.services@, c.critical_path_p99_ms, c.services@.len()),
    }
}

/// Two services are configured the same.
pub open spec fn same_service(a: ServiceConfig, b: ServiceConfig) -> bool {
    &&& a.name@ == b.name@
    &&& a.enabled == b.enabled
    &&& a.critical_path_timeout_ms == b.critical_path_timeout_ms
    &&& a.max_inflight_requests == b.max_inflight_requests
    &&& a.hot_reload == b.hot_reload
}

/// The service at place `i` is the first of its name.
pub open spec fn is_first_named(services: Seq<ServiceConfig>, i: int, name: Seq<char>) -> bool {
    0 <= i < services.len() && services[i].name@ == name && !named_before(services, i, name)
}

/// The candidate is new, or configured otherwise than the first current service of its name.
pub open spec fn is_changed(current: Seq<ServiceConfig>, candidate: ServiceConfig) -> bool {
    !(exists|i: int| #[trigger]
        is_first_named(current, i, candidate.name@) && same_service(current[i], candidate))
}

/// The service has changed against the current ones.
pub open spec fn changed_against(current: Seq<ServiceConfig>) -> spec_fn(ServiceConfig) -> bool {
    |c: ServiceConfig| is_changed(current, c)
}

/// The names of the services that have changed.
pub open spec fn changed_names(current: Seq<ServiceConfig>, candidate: Seq<ServiceConfig>) -> Seq<
    String,
> {
    candidate.filter(changed_against(current)).map_values(|s: ServiceConfig| s.name)
}

/// The change of the service at a place is refused.
pub open spec fn frozen(current: Seq<ServiceConfig>, candidate: ServiceConfig) -> bool {
    is_changed(current, candidate) && !candidate.hot_reload
}

/// The first of the first `n` candidate services whose change is refused.
pub open spec fn first_frozen(current: Seq<ServiceConfig>, candidate: Seq<ServiceConfig>, n: nat) -> Option<
    int,
>
    decreases n,
{
    if n == 0 {
        None
    } else {
        match first_frozen(current, candidate, (n - 1) as nat) {
            Some(i) => Some(i),
            None => if frozen(current, candidate[n - 1]) {
                Some(n - 1)
            } else {
                None
            },
        }
    }
}

/// Why a candidate cannot replace the current configuration, if it cannot.
pub open spec fn reload_problem(current: SystemConfig, candidate: SystemConfig) -> Option<
    ConfigError,
> {
    if config_problem(candidate) is Some {
        config_problem(candidate)
    } else if candidate.version <= current.version {
        Some(ConfigError::NonMonotonicVersion)
    } else if candidate.version - current.version > MAX_CONFIG_VERSION_JUMP {
        Some(ConfigError::VersionJumpTooLarge)
    } else {
        match first_frozen(current.services@, candidate.services@, candidate.services@.len()) {
            Some(i) => Some(ConfigError::HotReloadDisabled(candidate.services@[i].name)),
            None => None,
        }
    }
}

/// The event of replacing the current configuration by a candidate.
pub open spec fn change_event(current: SystemConfig, candidate: SystemConfig) -> ChangeModel {
    ChangeModel {
        previous_version: current.version,
        current_version: candidate.version,
        changed_services: changed_names(current.services@, candidate.services@),
        canary_percent: candidate.deployment.canary_percent,
    }
}

proof fn lemma_services_error_none(services: Seq<ServiceConfig>, target_ms: u64, n: nat, i: int)
    requires
        services_error(services, target_ms, n) is None,
        0 <= i < n,
    ensures
        service_error(services, target_ms, i) is None,
    decreases n,
{
    if i < n - 1 {
        lemma_services_error_none(services, target_ms, (n - 1) as nat, i);
    }
}

/// In a valid configuration every service has a name of its own, of at most
/// [`MAX_SERVICE_NAME_LEN`] bytes, keeps within the latency target, and admits requests.
pub proof fn law_valid_services(c: SystemConfig, i: int, j: int)
    requires
        config_problem(c) is None,
        0 <= i < c.services@.len(),
        0 <= j < c.services@.len(),
    ensures
        c.services@[i].name@.len() > 0,
        vstd::utf8::encode_utf8(c.services@[i].name@).len() <= MAX_SERVICE_NAME_LEN,
        c.services@[i].critical_path_timeout_ms <= c.critical_path_p99_ms <= 100,
        c.services@[i].max_inflight_requests > 0,
        c.services@[i].name@ == c.services@[j].name@ ==> i == j,
{
    let s = c.services@;
    lemma_services_error_none(s, c.critical_path_p99_ms, s.len(), i);
    lemma_services_error_none(s, c.critical_path_p99_ms, s.len(), j);
    if i < j && s[i].name@ == s[j].name@ {
        assert(named_before(s, j, s[j].name@));
    }
    if j < i && s[i].name@ == s[j].name@ {
        assert(named_before(s, i, s[i].name@));
    }
}

/// A service is fit for a latency target.
pub open spec fn fit_service(s: ServiceConfig, target_ms: u64) -> bool {
    &&& s.name@.len() > 0
    &&& vstd::utf8::encode_utf8(s.name@).len() <= MAX_SERVICE_NAME_LEN
    &&& s.critical_path_timeout_ms <= target_ms
    &&& s.max_inflight_requests > 0
}

/// What makes a configuration valid.
pub open spec fn well_configured(c: SystemConfig) -> bool {
    &&& c.services@.len() <= MAX_SERVICES
    &&& 9_999 <= c.availability_target_bps <= 10_000
    &&& 1 <= c.critical_path_p99_ms <= 100
    &&& c.security_review_required
    &&& c.monitoring.metrics_enabled && c.monitoring.alerting_enabled
    &&& 1 <= c.monitoring.dashboard_refresh_seconds <= 300
    &&& c.monitoring.p99_latency_alert_ms <= c.critical_path_p99_ms
    &&& c.deployment.canary_percent <= 100
    &&& c.deployment.canary_error_budget_bps <= 10_000
    &&& forall|i: int|
        0 <= i < c.services@.len() ==> fit_service(
            #[trigger] c.services@[i],
            c.critical_path_p99_ms,
        )
    &&& forall|i: int, j: int|
        0 <= i < j < c.services@.len() ==> (#[trigger] c.services@[i]).name@ != (
        #[trigger] c.services@[j]).name@
}

proof fn lemma_services_fit(services: Seq<ServiceConfig>, target_ms: u64, n: nat)
    requires
        n <= services.len(),
        forall|i: int|
            0 <= i < services.len() ==> fit_service(#[trigger] services[i], target_ms),
        forall|i: int, j: int|
            0 <= i < j < services.len() ==> (#[trigger] services[i]).name@ != (
            #[trigger] services[j]).name@,
    ensures
        services_error(services, target_ms, n) is None,
    decreases n,
{
    if n > 0 {
        lemma_services_fit(services, target_ms, (n - 1) as nat);
        let s = services[n - 1];
        assert(fit_service(s, target_ms));
        assert(!named_before(services, n - 1, s.name@));
    }
}

/// A configuration is valid exactly where it is well configured.
pub proof fn law_valid_where_well_configured(c: SystemConfig)
    ensures
        config_problem(c) is None <==> well_configured(c),
{
    let s = c.services@;
    if config_problem(c) is None {
        assert forall|i: int| 0 <= i < s.len() implies fit_service(
            #[trigger] s[i],
            c.critical_path_p99_ms,
        ) by {
            law_valid_services(c, i, i);
        }
        assert forall|i: int, j: int| 0 <= i < j < s.len() implies (#[trigger] s[i]).name@ != (
        #[trigger] s[j]).name@ by {
            law_valid_services(c, i, j);
        }
    }
    if well_configured(c) {
        lemma_services_fit(s, c.critical_path_p99_ms, s.len());
    }
}

/// A configuration cannot be reloaded over itself.
pub proof fn law_reload_needs_a_new_version(c: SystemConfig, candidate: SystemConfig)
    requires
        reload_problem(c, candidate) is None,
    ensures
        c.version < candidate.version <= c.version + MAX_CONFIG_VERSION_JUMP,
        config_problem(candidate) is None,
{
}

proof fn lemma_first_frozen_none(
    current: Seq<ServiceConfig>,
    candidate: Seq<ServiceConfig>,
    n: nat,
    i: int,
)
    requires
        first_frozen(current, candidate, n) is None,
        0 <= i < n,
    ensures
        !frozen(current, candidate[i]),
    decreases n,
{
    if i < n - 1 {
        lemma_first_frozen_none(current, candidate, (n - 1) as nat, i);
    }
}

/// After a reload every service that has changed allows it.
pub proof fn law_reload_changes_only_reloadable(c: SystemConfig, candidate: SystemConfig, i: int)
    requires
        reload_problem(c, candidate) is None,
        0 <= i < candidate.services@.len(),
        is_changed(c.services@, candidate.services@[i]),
    ensures
        candidate.services@[i].hot_reload,
{
    lemma_first_frozen_none(c.services@, candidate.services@, candidate.services@.len(), i);
}

impl View for ConfigManager {
    type V = ManagerState;

    closed spec fn view(&self) -> ManagerState {
        ManagerState {
            active: self.active,
            history: self.history@.map_values(|e: ConfigChangeEvent| e@),
        }
    }
}

/// The manager after a candidate has been taken over.
pub open spec fn reloaded(s: ManagerState, candidate: SystemConfig) -> ManagerState {
    ManagerState {
        active: candidate,
        history: s.history.push(change_event(s.active, candidate)),
    }
}

/// The versions of a history ascend, each change taking up where the one before left off, up to
/// the active version.
pub open spec fn history_ok(history: Seq<ChangeModel>, active: u64) -> bool {
    &&& forall|i: int|
        0 <= i < history.len() ==> (#[trigger] history[i]).previous_version
            < history[i].current_version
    &&& forall|i: int|
        0 <= i < history.len() - 1 ==> (#[trigger] history[i]).current_version == history[i
            + 1].previous_version
    &&& history.len() > 0 ==> history.last().current_version == active
}

impl ConfigManager {
    /// The active configuration is valid, and the history leads up to it.
    pub closed spec fn wf(&self) -> bool {
        &&& config_problem(self.active) is None
        &&& history_ok(self@.history, self.active.version)
    }

    /// The active configuration is valid, and the history leads up to it by ascending versions.
    pub proof fn law_active_is_valid(&self)
        requires
            self.wf(),
        ensures
            config_problem(self@.active) is None,
            history_ok(self@.history, self@.active.version),
    {
    }

    pub fn new(config: SystemConfig) -> (r: Result<Self, ConfigError>)
        ensures
            config_problem(config) is Some ==> r == Err::<Self, _>(config_problem(config)->0),
            config_problem(config) is None ==> r is Ok,
            r matches Ok(m) ==> m.wf() && m@ == (ManagerState {
                active: config,
                history: Seq::empty(),
            }),
    {
        match validate_config(&config) {
            Ok(()) => {
                let m = ConfigManager { active: config, history: Vec::new() };
                assert(m@.history =~= Seq::empty());
                Ok(m)
            },
            Err(e) => Err(e),
        }
    }

    pub fn active(&self) -> (r: &SystemConfig)
        ensures
            *r == self@.active,
    {
        &self.active
    }

    pub fn history(&self) -> (r: &[ConfigChangeEvent])
        ensures
            r@.map_values(|e: ConfigChangeEvent| e@) == self@.history,
    {
        self.history.as_slice()
    }

    /// Puts a candidate in place of the active configuration, if it may be.
    pub fn reload(&mut self, candidate: SystemConfig) -> (r: Result<ConfigChangeEvent, ConfigError>)
        requires
            old(self).wf(),
        ensures
            final(self).wf(),
            reload_problem(old(self)@.active, candidate) is Some ==> {
                &&& r == Err::<ConfigChangeEvent, _>(
                    reload_problem(old(self)@.active, candidate)->0,
                )
                &&& final(self)@ == old(self)@
            },
            reload_problem(old(self)@.active, candidate) is None ==> {
                &&& r is Ok
                &&& r->Ok_0@ == change_event(old(self)@.active, candidate)
                &&& final(self)@ == reloaded(old(self)@, candidate)
            },
    {
        match validate_reload(&self.active, &candidate) {
            Ok(()) => {},
            Err(e) => {
                return Err(e);
            },
        }
        let event: ConfigChangeEvent = ConfigChangeEvent {
            previous_version: self.active.version,
            current_version: candidate.version,
            changed_services: changed_services(
                self.active.services.as_slice(),
                candidate.services.as_slice(),
            ),
            canary_percent: candidate.deployment.canary_percent,
        };
        let ghost before = self@.history;
        self.active = candidate;
        let logged: ConfigChangeEvent = event.clone();
        proof {
            lemma_map_values_push(self.history@, logged, |e: ConfigChangeEvent| e@);
        }
        self.history.push(logged);
        proof {
            let h = self@.history;
            assert(h == before.push(logged@));
            assert forall|i: int| 0 <= i < h.len() - 1 implies (#[trigger] h[i]).current_version
                == h[i + 1].previous_version by {
                if i < before.len() - 1 {
                    assert(before[i].current_version == before[i + 1].previous_version);
                }
            }
        }
        Ok(event)
    }
}

/// Checks that a candidate may replace the current configuration.
pub fn validate_reload(current: &SystemConfig, candidate: &SystemConfig) -> (r: Result<
    (),
    ConfigError,
>)
    ensures
        r == match reload_problem(*current, *candidate) {
            Some(e) => Err(e),
            None => Ok(()),
        },
{
    match validate_config(candidate) {
        Ok(()) => {},
        Err(e) => {
            return Err(e);
        },
    }
    if candidate.version <= current.version {
        return Err(ConfigError::NonMonotonicVersion);
    }
    if candidate.version - current.version > MAX_CONFIG_VERSION_JUMP {
        return Err(ConfigError::VersionJumpTooLarge);
    }
    let ghost cur = current.services@;
    let ghost cand = candidate.services@;
    let mut i: usize = 0;
    while i < candidate.services.len()
        invariant
            cur == current.services@,
            cand == candidate.services@,
            config_problem(*candidate) is None,
            current.version < candidate.version,
            candidate.version - current.version <= MAX_CONFIG_VERSION_JUMP,
            i <= cand.len(),
            first_frozen(cur, cand, i as nat) is None,
        decreases cand.len() - i,
    {
        let service: &ServiceConfig = &candidate.services[i];
        if service_changed(current.services.as_slice(), service) && !service.hot_reload {
            proof {
                lemma_first_frozen_found(cur, cand, i as int, cand.len());
            }
            return Err(ConfigError::HotReloadDisabled(service.name.clone()));
        }
        i = i + 1;
    }
    Ok(())
}

proof fn lemma_first_frozen_found(
    current: Seq<ServiceConfig>,
    candidate: Seq<ServiceConfig>,
    i: int,
    n: nat,
)
    requires
        first_frozen(current, candidate, i as nat) is None,
        0 <= i < n,
        frozen(current, candidate[i]),
    ensures
        first_frozen(current, candidate, n) == Some(i),
    decreases n,
{
    if i < n - 1 {
        lemma_first_frozen_found(current, candidate, i, (n - 1) as nat);
    }
}

proof fn lemma_services_error_found(services: Seq<ServiceConfig>, target_ms: u64, i: int, n: nat)
    requires
        services_error(services, target_ms, i as nat) is None,
        0 <= i < n,
        service_error(services, target_ms, i) is Some,
    ensures
        services_error(services, target_ms, n) == service_error(services, target_ms, i),
    decreases n,
{
    if i < n - 1 {
        lemma_services_error_found(services, target_ms, i, (n - 1) as nat);
    }
}

/// Whether a service of this name comes before place `n`.
fn is_named_before(services: &Vec<ServiceConfig>, n: usize, name: &String) -> (r: bool)
    requires
        n <= services@.len(),
    ensures
        r == named_before(services@, n as int, name@),
{
    let mut j: usize = 0;
    while j < n
        invariant
            j <= n <= services@.len(),
            forall|k: int| 0 <= k < j ==> (#[trigger] services@[k]).name@ != name@,
        decreases n - j,
    {
        if text_equal(services[j].name.as_str(), name.as_str()) {
            assert(services@[j as int].name@ == name@);
            return true;
        }
        j = j + 1;
    }
    false
}

/// Checks a configuration.
pub fn validate_config(config: &SystemConfig) -> (r: Result<(), ConfigError>)
    ensures
        r == match config_problem(*config) {
            Some(e) => Err(e),
            None => Ok(()),
        },
{
    if config.services.len() > MAX_SERVICES {
        return Err(ConfigError::TooManyServices);
    }
    if config.availability_target_bps < 9_999 || config.availability_target_bps > 10_000 {
        return Err(ConfigError::InvalidAvailabilityTarget);
    }
    if config.critical_path_p99_ms == 0 || config.critical_path_p99_ms > 100 {
        return Err(ConfigError::CriticalPathTargetTooHigh);
    }
    if !config.security_review_required {
        return Err(ConfigError::SecurityReviewMissing);
    }
    if !config.monitoring.metrics_enabled || !config.monitoring.alerting_enabled {
        return Err(ConfigError::MonitoringDisabled);
    }
    if config.monitoring.dashboard_refresh_seconds == 0
        || config.monitoring.dashboard_refresh_seconds > 300 {
        return Err(ConfigError::InvalidDashboardRefresh);
    }
    if config.monitoring.p99_latency_alert_ms > config.critical_path_p99_ms {
        return Err(ConfigError::CriticalPathTargetTooHigh);
    }
    if config.deployment.canary_percent > 100 {
        return Err(ConfigError::InvalidCanaryPercent);
    }
    if config.deployment.canary_error_budget_bps > 10_000 {
        return Err(ConfigError::InvalidCanaryErrorBudget);
    }
    let ghost s = config.services@;
    let ghost target = config.critical_path_p99_ms;
    let mut i: usize = 0;
    while i < config.services.len()
        invariant
            s == config.services@,
            target == config.critical_path_p99_ms,
            system_error(*config) is None,
            i <= s.len(),
            services_error(s, target, i as nat) is None,
        decreases s.len() - i,
    {
        let service: &ServiceConfig = &config.services[i];
        proof {
            if service_error(s, target, i as int) is Some {
                lemma_services_error_found(s, target, i as int, s.len());
            }
        }
        if service.name.as_str().is_empty() {
            return Err(ConfigError::EmptyServiceName);
        }
        if service.name.as_str().as_bytes().len() > MAX_SERVICE_NAME_LEN {
            return Err(ConfigError::ServiceNameTooLong);
        }
        if is_named_before(&config.services, i, &service.name) {
            return Err(ConfigError::DuplicateServiceName);
        }
        if service.critical_path_timeout_ms > config.critical_path_p99_ms {
            return Err(ConfigError::ServiceTimeoutExceedsTarget);
        }
        if service.max_inflight_requests == 0 {
            return Err(ConfigError::ZeroInflightLimit);
        }
        i = i + 1;
    }
    Ok(())
}

/// Whether two services are configured the same.
fn services_equal(a: &ServiceConfig, b: &ServiceConfig) -> (r: bool)
    ensures
        r == same_service(*a, *b),
{
    text_equal(a.name.as_str(), b.name.as_str()) && a.enabled == b.enabled
        && a.critical_path_timeout_ms == b.critical_path_timeout_ms && a.max_inflight_requests
        == b.max_inflight_requests && a.hot_reload == b.hot_reload
}

fn service_changed(current: &[ServiceConfig], candidate: &ServiceConfig) -> (r: bool)
    ensures
        r == is_changed(current@, *candidate),
{
    let mut i: usize = 0;
    while i < current.len()
        invariant
            i <= current@.len(),
            !named_before(current@, i as int, candidate.name@),
        decreases current@.len() - i,
    {
        if text_equal(current[i].name.as_str(), candidate.name.as_str()) {
            let same: bool = services_equal(&current[i], candidate);
            proof {
                assert(is_first_named(current@, i as int, candidate.name@));
                assert forall|j: int| #[trigger]
                    is_first_named(current@, j, candidate.name@) implies j == i by {
                    if i < j {
                        assert(current@[i as int].name@ == candidate.name@);
                    }
                }
            }
            return !same;
        }
        i = i + 1;
    }
    proof {
        assert forall|j: int| !(#[trigger] is_first_named(current@, j, candidate.name@)) by {
            if is_first_named(current@, j, candidate.name@) {
                assert(named_before(current@, i as int, candidate.name@));
            }
        }
    }
    true
}

fn changed_services(current: &[ServiceConfig], candidate: &[ServiceConfig]) -> (r: Vec<String>)
    ensures
        r@ == changed_names(current@, candidate@),
{
    let ghost p = changed_against(current@);
    let ghost f = |s: ServiceConfig| s.name;
    let mut names: Vec<String> = Vec::new();
    let mut i: usize = 0;
    proof {
        reveal(Seq::filter);
        assert(candidate@.take(0) =~= Seq::<ServiceConfig>::empty());
        assert(names@ =~= candidate@.take(0).filter(p).map_values(f));
    }
    while i < candidate.len()
        invariant
            p == changed_against(current@),
            f == (|s: ServiceConfig| s.name),
            i <= candidate@.len(),
            names@ == candidate@.take(i as int).filter(p).map_values(f),
        decreases candidate@.len() - i,
    {
        proof {
            lemma_filter_step(candidate@, i as int, p);
        }
        if service_changed(current, &candidate[i]) {
            proof {
                lemma_map_values_push(candidate@.take(i as int).filter(p), candidate@[i as int], f);
            }
            names.push(candidate[i].name.clone());
        }
        i = i + 1;
    }
    assert(candidate@.take(i as int) =~= candidate@);
    names
}

impl Default for MonitoringConfig {
    fn default() -> (r: Self)
        ensures
            r == (MonitoringConfig {
                metrics_enabled: true,
                alerting_enabled: true,
                dashboard_refresh_seconds: 30,
                p99_latency_alert_ms: 100,
            }),
    {
        MonitoringConfig {
            metrics_enabled: true,
            alerting_enabled: true,
            dashboard_refresh_seconds: 30,
            p99_latency_alert_ms: 100,
        }
    }
}

impl Default for DeploymentConfig {
    fn default() -> (r: Self)
        ensures
            r == (DeploymentConfig {
                blue_green_enabled: true,
                canary_percent: 5,
                canary_error_budget_bps: 100,
            }),
    {
        DeploymentConfig {
            blue_green_enabled: true,
            canary_percent: 5,
            canary_error_budget_bps: 100,
        }
    }
}

/// The limits that concern the whole system are tested in a fixed order, and the first that is
/// not kept is reported.
pub proof fn law_first_broken_limit_is_reported(c: SystemConfig)
    ensures
        ({
            let e = system_error(c);
            let a = c.services@.len() <= 64;
            let b = a && 9_999 <= c.availability_target_bps <= 10_000;
            let d = b && 1 <= c.critical_path_p99_ms <= 100;
            let f = d && c.security_review_required;
            let g = f && c.monitoring.metrics_enabled && c.monitoring.alerting_enabled;
            let h = g && 1 <= c.monitoring.dashboard_refresh_seconds <= 300;
            let i = h && c.monitoring.p99_latency_alert_ms <= c.critical_path_p99_ms;
            let j = i && c.deployment.canary_percent <= 100;
            let k = j && c.deployment.canary_error_budget_bps <= 10_000;
            &&& e == Some(ConfigError::TooManyServices) <==> !a
            &&& e == Some(ConfigError::InvalidAvailabilityTarget) <==> a && !b
            &&& e == Some(ConfigError::CriticalPathTargetTooHigh) <==> (b && !d) || (h && !i)
            &&& e == Some(ConfigError::SecurityReviewMissing) <==> d && !f
            &&& e == Some(ConfigError::MonitoringDisabled) <==> f && !g
            &&& e == Some(ConfigError::InvalidDashboardRefresh) <==> g && !h
            &&& e == Some(ConfigError::InvalidCanaryPercent) <==> i && !j
            &&& e == Some(ConfigError::InvalidCanaryErrorBudget) <==> j && !k
            &&& e is None <==> k
        }),
{
}

/// A service needs a name of at most 64 bytes that no service before it has, a timeout within the
/// target and room for a request; the first of these that fails is reported.
pub proof fn law_service_fault(services: Seq<ServiceConfig>, target_ms: u64, i: int)
    requires
        0 <= i < services.len(),
    ensures
        ({
            let e = service_error(services, target_ms, i);
            let s = services[i];
            let a = s.name@.len() > 0;
            let b = a && vstd::utf8::encode_utf8(s.name@).len() <= 64;
            let c = b && forall|j: int| 0 <= j < i ==> (#[trigger] services[j]).name@ != s.name@;
            let d = c && s.critical_path_timeout_ms <= target_ms;
            let f = d && s.max_inflight_requests > 0;
            &&& e == Some(ConfigError::EmptyServiceName) <==> !a
            &&& e == Some(ConfigError::ServiceNameTooLong) <==> a && !b
            &&& e == Some(ConfigError::DuplicateServiceName) <==> b && !c
            &&& e == Some(ConfigError::ServiceTimeoutExceedsTarget) <==> c && !d
            &&& e == Some(ConfigError::ZeroInflightLimit) <==> d && !f
            &&& e is None <==> f
        }),
{
}

/// Of the services with a fault the first is reported, once the limits of the whole system are
/// kept.
pub proof fn law_first_faulty_service_is_reported(c: SystemConfig, i: int)
    requires
        system_error(c) is None,
        0 <= i < c.services@.len(),
        service_error(c.services@, c.critical_path_p99_ms, i) is Some,
        forall|j: int|
            0 <= j < i ==> (#[trigger] service_error(c.services@, c.critical_path_p99_ms, j))
                is None,
    ensures
        config_problem(c) == service_error(c.services@, c.critical_path_p99_ms, i),
{
    lemma_no_error_before(c.services@, c.critical_path_p99_ms, i as nat);
    lemma_services_error_found(c.services@, c.critical_path_p99_ms, i, c.services@.len());
}

proof fn lemma_no_error_before(services: Seq<ServiceConfig>, target_ms: u64, n: nat)
    requires
        forall|j: int| 0 <= j < n ==> (#[trigger] service_error(services, target_ms, j)) is None,
    ensures
        services_error(services, target_ms, n) is None,
    decreases n,
{
    if n > 0 {
        lemma_no_error_before(services, target_ms, (n - 1) as nat);
        assert(service_error(services, target_ms, n - 1) is None);
    }
}

/// Where no two services share a name, a service counts as changed exactly where none of the
/// current ones agrees with it in every field.
pub proof fn law_changed_in_any_field(current: Seq<ServiceConfig>, candidate: ServiceConfig)
    requires
        forall|i: int, j: int|
            0 <= i < j < current.len() ==> (#[trigger] current[i]).name@ != (
            #[trigger] current[j]).name@,
    ensures
        is_changed(current, candidate) <==> forall|i: int|
            0 <= i < current.len() ==> {
                let s = #[trigger] current[i];
                ||| s.name@ != candidate.name@
                ||| s.enabled != candidate.enabled
                ||| s.critical_path_timeout_ms != candidate.critical_path_timeout_ms
                ||| s.max_inflight_requests != candidate.max_inflight_requests
                ||| s.hot_reload != candidate.hot_reload
            },
{
    assert forall|i: int| 0 <= i < current.len() && same_service(#[trigger] current[i], candidate)
        implies is_first_named(current, i, candidate.name@) by {
        assert forall|j: int| 0 <= j < i implies (#[trigger] current[j]).name@ != candidate.name@ by {
            assert(current[j].name@ != current[i].name@);
        }
    }
    if is_changed(current, candidate) {
        assert forall|i: int| 0 <= i < current.len() implies !same_service(
            #[trigger] current[i],
            candidate,
        ) by {
            if same_service(current[i], candidate) {
                assert(is_first_named(current, i, candidate.name@));
            }
        }
    }
}

/// The services that changed are named in the candidate's order, each that changed and no other.
pub proof fn law_changed_names_take_in_a_service(
    current: Seq<ServiceConfig>,
    candidate: Seq<ServiceConfig>,
    c: ServiceConfig,
)
    ensures
        changed_names(current, Seq::<ServiceConfig>::empty()) == Seq::<String>::empty(),
        changed_names(current, candidate.push(c)) == if is_changed(current, c) {
            changed_names(current, candidate).push(c.name)
        } else {
            changed_names(current, candidate)
        },
{
    let p = changed_against(current);
    let name = |s: ServiceConfig| s.name;
    reveal(Seq::filter);
    assert(candidate.push(c).drop_last() =~= candidate);
    assert(changed_names(current, Seq::<ServiceConfig>::empty()) =~= Seq::<String>::empty());
    if is_changed(current, c) {
        lemma_map_values_push(candidate.filter(p), c, name);
    }
}

/// A candidate is taken over exactly where it is well configured, its version lies one to a
/// thousand above the active one, and every service that changed may be reloaded. A version that
/// does not rise, one that rises too far and the first service that may not be reloaded are
/// reported in this order.
pub proof fn law_reload_in_numbers(current: SystemConfig, candidate: SystemConfig)
    ensures
        ({
            let e = reload_problem(current, candidate);
            let a = config_problem(candidate) is None;
            let b = a && candidate.version > current.version;
            let c = b && candidate.version <= current.version + 1_000;
            let d = c && forall|i: int|
                0 <= i < candidate.services@.len() ==> (is_changed(
                    current.services@,
                    #[trigger] candidate.services@[i],
                ) ==> candidate.services@[i].hot_reload);
            &&& !a ==> e == config_problem(candidate)
            &&& a ==> (e == Some(ConfigError::NonMonotonicVersion) <==> !b)
            &&& a ==> (e == Some(ConfigError::VersionJumpTooLarge) <==> b && !c)
            &&& e is None <==> d
            &&& c && !d ==> (e matches Some(ConfigError::HotReloadDisabled(name)) && exists|i: int|
                0 <= i < candidate.services@.len() && is_changed(
                    current.services@,
                    #[trigger] candidate.services@[i],
                ) && !candidate.services@[i].hot_reload && name == candidate.services@[i].name)
        }),
{
    let cur = current.services@;
    let cand = candidate.services@;
    match first_frozen(cur, cand, cand.len()) {
        Some(i) => {
            lemma_first_frozen_some(cur, cand, cand.len());
            assert(is_changed(cur, cand[i]) && !cand[i].hot_reload);
        },
        None => {
            assert forall|i: int|
                0 <= i < cand.len() && is_changed(
                    cur,
                    #[trigger] cand[i],
                ) implies cand[i].hot_reload by {
                lemma_first_frozen_none(cur, cand, cand.len(), i);
            }
        },
    }
}

proof fn lemma_first_frozen_some(current: Seq<ServiceConfig>, candidate: Seq<ServiceConfig>, n: nat)
    requires
        first_frozen(current, candidate, n) is Some,
    ensures
        ({
            let i = first_frozen(current, candidate, n)->0;
            &&& 0 <= i < n
            &&& frozen(current, candidate[i])
        }),
    decreases n,
{
    if n > 0 && first_frozen(current, candidate, (n - 1) as nat) is Some {
        lemma_first_frozen_some(current, candidate, (n - 1) as nat);
    }
}

/// Taking over a candidate makes it the active configuration and adds to the end of the history
/// both versions, the services that changed and the candidate's share for the canary.
pub proof fn law_reload_is_recorded(s: ManagerState, candidate: SystemConfig)
    ensures
        ({
            let t = reloaded(s, candidate);
            &&& t.active == candidate
            &&& t.history.len() == s.history.len() + 1
            &&& forall|i: int| 0 <= i < s.history.len() ==> #[trigger] t.history[i] == s.history[i]
            &&& t.history.last() == change_event(s.active, candidate)
            &&& t.history.last().previous_version == s.active.version
            &&& t.history.last().current_version == candidate.version
            &&& t.history.last().canary_percent == candidate.deployment.canary_percent
            &&& t.history.last().changed_services == changed_names(
                s.active.services@,
                candidate.services@,
            )
        }),
{
}

} // verus!
