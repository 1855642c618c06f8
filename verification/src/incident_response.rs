//! Incident response runbook automation and paging event preparation.
//!
//! Deterministic and side-effect free: selects runbooks, builds paging event payloads, and records
//! deployment-gate decisions without performing network I/O.

use vstd::prelude::*;
use vstd::string::StringExecFns;

use crate::text::{decimal, join3, to_decimal};

verus! {

/// P99 latency budget for critical incident automation paths, in milliseconds.
pub const CRITICAL_PATH_P99_BUDGET_MS: u64 = 100;

/// Availability target expressed in basis points (99.99%).
pub const AVAILABILITY_TARGET_BPS: u32 = 9_999;

/// Minimum canary success rate required before promoting a deployment.
pub const MIN_CANARY_SUCCESS_RATE_BPS: u32 = 9_995;

/// Incident severity used to choose escalation and rollout behavior.
#[derive(Clone, Copy, Debug, Eq, PartialEq, Ord, PartialOrd)]
pub enum IncidentSeverity {
    Sev1,
    Sev2,
    Sev3,
    Sev4,
}

/// The name of a severity.
pub open spec fn severity_text(s: IncidentSeverity) -> Seq<char> {
    match s {
        IncidentSeverity::Sev1 => "sev1"@,
        IncidentSeverity::Sev2 => "sev2"@,
        IncidentSeverity::Sev3 => "sev3"@,
        IncidentSeverity::Sev4 => "sev4"@,
    }
}

/// Incidents of this severity page someone.
pub open spec fn pages(s: IncidentSeverity) -> bool {
    s is Sev1 || s is Sev2
}

impl IncidentSeverity {
    pub fn as_str(self) -> (r: &'static str)
        ensures
            r@ == severity_text(self),
    {
        match self {
            IncidentSeverity::Sev1 => "sev1",
            IncidentSeverity::Sev2 => "sev2",
            IncidentSeverity::Sev3 => "sev3",
            IncidentSeverity::Sev4 => "sev4",
        }
    }

    pub fn is_page_required(self) -> (r: bool)
        ensures
            r == pages(self),
    {
        match self {
            IncidentSeverity::Sev1 | IncidentSeverity::Sev2 => true,
            IncidentSeverity::Sev3 | IncidentSeverity::Sev4 => false,
        }
    }
}

/// Events API action for a deduplication key.
#[derive(Clone, Copy, Debug, Eq, PartialEq)]
pub enum PagerDutyAction {
    Trigger,
    Acknowledge,
    Resolve,
}

/// The name of an action.
pub open spec fn action_text(a: PagerDutyAction) -> Seq<char> {
    match a {
        PagerDutyAction::Trigger => "trigger"@,
        PagerDutyAction::Acknowledge => "acknowledge"@,
        PagerDutyAction::Resolve => "resolve"@,
    }
}

impl PagerDutyAction {
    pub fn as_str(self) -> (r: &'static str)
        ensures
            r@ == action_text(self),
    {
        match self {
            PagerDutyAction::Trigger => "trigger",
            PagerDutyAction::Acknowledge => "acknowledge",
            PagerDutyAction::Resolve => "resolve",
        }
    }
}

/// A runbook step selected for an incident.
#[derive(Clone, Debug, Eq, PartialEq)]
pub struct RunbookStep {
    pub name: String,
    pub command: String,
    pub rollback_command: String,
    pub critical: bool,
}

/// What a runbook step says.
pub struct StepModel {
    pub name: Seq<char>,
    pub command: Seq<char>,
    pub rollback_command: Seq<char>,
    pub critical: bool,
}

impl View for RunbookStep {
    type V = StepModel;

    open spec fn view(&self) -> StepModel {
        StepModel {
            name: self.name@,
            command: self.command@,
            rollback_command: self.rollback_command@,
            critical: self.critical,
        }
    }
}

/// Incident signal provided by monitoring/alerting.
#[derive(Clone, Debug, Eq, PartialEq)]
pub struct IncidentSignal {
    pub service: String,
    pub summary: String,
    pub severity: IncidentSeverity,
    pub metric: String,
    pub observed_value: u64,
    pub threshold: u64,
}

/// Paging event payload data, to be serialized by the operator's HTTP client.
#[derive(Clone, Debug, Eq, PartialEq)]
pub struct PagerDutyEvent {
    pub routing_key: String,
    pub event_action: PagerDutyAction,
    pub dedup_key: String,
    pub summary: String,
    pub source: String,
    pub severity: String,
    pub component: String,
    pub group: String,
    pub custom_details: Vec<(String, String)>,
}

/// What a paging event says.
pub struct EventModel {
    pub routing_key: Seq<char>,
    pub event_action: PagerDutyAction,
    pub dedup_key: Seq<char>,
    pub summary: Seq<char>,
    pub source: Seq<char>,
    pub severity: Seq<char>,
    pub component: Seq<char>,
    pub group: Seq<char>,
    pub custom_details: Seq<(Seq<char>, Seq<char>)>,
}

/// The pairs of a list of details, as texts.
pub open spec fn details_model(details: Seq<(String, String)>) -> Seq<(Seq<char>, Seq<char>)> {
    details.map_values(|d: (String, String)| (d.0@, d.1@))
}

impl View for PagerDutyEvent {
    type V = EventModel;

    open spec fn view(&self) -> EventModel {
        EventModel {
            routing_key: self.routing_key@,
            event_action: self.event_action,
            dedup_key: self.dedup_key@,
            summary: self.summary@,
            source: self.source@,
            severity: self.severity@,
            component: self.component@,
            group: self.group@,
            custom_details: details_model(self.custom_details@),
        }
    }
}

/// Deployment strategy chosen during remediation.
#[derive(Clone, Debug, Eq, PartialEq)]
pub struct DeploymentGate {
    pub blue_green_enabled: bool,
    pub canary_percent: u8,
    pub promote: bool,
    pub reason: String,
}

/// Top-level automation plan for a signal.
#[derive(Clone, Debug, Eq, PartialEq)]
pub struct IncidentAutomationPlan {
    pub signal: IncidentSignal,
    pub pagerduty_event: Option<PagerDutyEvent>,
    pub runbook: Vec<RunbookStep>,
    pub monitoring_queries: Vec<String>,
    pub deployment_gate: DeploymentGate,
}

/// The key under which events of a signal are deduplicated.
pub open spec fn dedup_text(s: IncidentSignal) -> Seq<char> {
    "verinode:"@ + s.service@ + ":"@ + s.metric@ + ":"@ + severity_text(s.severity)
}

/// The paging event of a signal.
pub open spec fn event_of(
    s: IncidentSignal,
    routing_key: Seq<char>,
    event_action: PagerDutyAction,
) -> EventModel {
    EventModel {
        routing_key,
        event_action,
        dedup_key: dedup_text(s),
        summary: s.summary@,
        source: "verinode-core"@,
        severity: severity_text(s.severity),
        component: s.service@,
        group: "protocol"@,
        custom_details: seq![
            ("metric"@, s.metric@),
            ("observed_value"@, decimal(s.observed_value as nat)),
            ("threshold"@, decimal(s.threshold as nat)),
            ("p99_budget_ms"@, decimal(CRITICAL_PATH_P99_BUDGET_MS as nat)),
            ("availability_target_bps"@, decimal(AVAILABILITY_TARGET_BPS as nat)),
        ],
    }
}

/// The deployment can be promoted: the canary is healthy, no error budget burns, and the incident
/// is not of the highest severity.
pub open spec fn promotable(severity: IncidentSeverity, success_bps: u32, burn_bps: u32) -> bool {
    success_bps >= MIN_CANARY_SUCCESS_RATE_BPS && burn_bps == 0 && !(severity is Sev1)
}

/// Whether a deployment gate is set as the severity and the canary ask for.
pub open spec fn is_gate_for(
    g: DeploymentGate,
    severity: IncidentSeverity,
    success_bps: u32,
    burn_bps: u32,
) -> bool {
    &&& g.blue_green_enabled
    &&& g.canary_percent == if severity is Sev1 {
        1u8
    } else {
        10u8
    }
    &&& g.promote == promotable(severity, success_bps, burn_bps)
    &&& g.reason@ == if promotable(severity, success_bps, burn_bps) {
        "canary healthy; promote green environment"@
    } else {
        "hold promotion; continue canary analysis or rollback"@
    }
}

/// The monitoring queries of a service.
pub open spec fn queries_of(service: Seq<char>) -> Seq<Seq<char>> {
    seq![
        "latency_p99_ms{service=\""@ + service + "\"}"@,
        "availability_bps{service=\""@ + service + "\"}"@,
        "pagerduty_events_total{service=\""@ + service + "\"}"@,
    ]
}

/// The runbook of a signal.
pub open spec fn runbook_of(s: IncidentSignal) -> Seq<StepModel> {
    seq![
        StepModel {
            name: "acknowledge-page"@,
            command: "pd incident acknowledge --dedup-key "@ + dedup_text(s) + ""@,
            rollback_command: "pd incident resolve --note 'false-positive or mitigated'"@,
            critical: pages(s.severity),
        },
        StepModel {
            name: "enable-blue-green-canary"@,
            command: "deploy green --service "@ + s.service@ + " --canary 10"@,
            rollback_command: "deploy rollback --service "@ + s.service@ + " --to blue"@,
            critical: true,
        },
        StepModel {
            name: "capture-security-evidence"@,
            command: "security evidence collect --service "@ + s.service@ + ""@,
            rollback_command: "security evidence archive --status superseded"@,
            critical: true,
        },
    ]
}

/// A deployment is never promoted during an incident of the highest severity.
pub proof fn law_no_promotion_at_highest_severity(success_bps: u32, burn_bps: u32)
    ensures
        !promotable(IncidentSeverity::Sev1, success_bps, burn_bps),
{
}

/// Signals of the same service, metric and severity share their deduplication key, whatever else
/// they say.
pub proof fn law_dedup_key_ignores_the_values(a: IncidentSignal, b: IncidentSignal)
    requires
        a.service@ == b.service@,
        a.metric@ == b.metric@,
        a.severity == b.severity,
    ensures
        dedup_text(a) == dedup_text(b),
{
}

/// Build a complete, deterministic automation plan.
pub fn build_incident_plan(signal: IncidentSignal, routing_key: &str) -> (r: IncidentAutomationPlan)
    ensures
        r.signal == signal,
        r.pagerduty_event is Some <==> pages(signal.severity),
        r.pagerduty_event matches Some(e) ==> e@ == event_of(
            signal,
            routing_key@,
            PagerDutyAction::Trigger,
        ),
        r.runbook@.map_values(|s: RunbookStep| s@) == runbook_of(signal),
        r.monitoring_queries@.map_values(|q: String| q@) == queries_of(signal.service@),
        is_gate_for(r.deployment_gate, signal.severity, 10_000, 0),
{
    let pagerduty_event: Option<PagerDutyEvent> = if signal.severity.is_page_required() {
        Some(build_pagerduty_event(&signal, routing_key, PagerDutyAction::Trigger))
    } else {
        None
    };
    let deployment_gate: DeploymentGate = choose_deployment_gate(signal.severity, 10_000, 0);
    let queries: Vec<String> = monitoring_queries(signal.service.as_str());
    let runbook: Vec<RunbookStep> = runbook_for(&signal);
    IncidentAutomationPlan {
        signal,
        pagerduty_event,
        runbook,
        monitoring_queries: queries,
        deployment_gate,
    }
}

/// Build an Events API v2-compatible event model.
pub fn build_pagerduty_event(
    signal: &IncidentSignal,
    routing_key: &str,
    event_action: PagerDutyAction,
) -> (r: PagerDutyEvent)
    ensures
        r@ == event_of(*signal, routing_key@, event_action),
{
    let mut details: Vec<(String, String)> = Vec::new();
    details.push(("metric".to_owned(), signal.metric.clone()));
    details.push(("observed_value".to_owned(), to_decimal(signal.observed_value)));
    details.push(("threshold".to_owned(), to_decimal(signal.threshold)));
    details.push(("p99_budget_ms".to_owned(), to_decimal(CRITICAL_PATH_P99_BUDGET_MS)));
    details.push(
        ("availability_target_bps".to_owned(), to_decimal(AVAILABILITY_TARGET_BPS as u64)),
    );
    let r: PagerDutyEvent = PagerDutyEvent {
        routing_key: routing_key.to_owned(),
        event_action,
        dedup_key: dedup_key(signal),
        summary: signal.summary.clone(),
        source: "verinode-core".to_owned(),
        severity: signal.severity.as_str().to_owned(),
        component: signal.service.clone(),
        group: "protocol".to_owned(),
        custom_details: details,
    };
    assert(r@.custom_details =~= event_of(*signal, routing_key@, event_action).custom_details);
    r
}

/// Decide whether a blue-green/canary deployment can be promoted.
pub fn choose_deployment_gate(
    severity: IncidentSeverity,
    canary_success_rate_bps: u32,
    canary_error_budget_burn_bps: u32,
) -> (r: DeploymentGate)
    ensures
        is_gate_for(r, severity, canary_success_rate_bps, canary_error_budget_burn_bps),
{
    let highest: bool = match severity {
        IncidentSeverity::Sev1 => true,
        _ => false,
    };
    let promote: bool = canary_success_rate_bps >= MIN_CANARY_SUCCESS_RATE_BPS
        && canary_error_budget_burn_bps == 0 && !highest;
    DeploymentGate {
        blue_green_enabled: true,
        canary_percent: if highest {
            1
        } else {
            10
        },
        promote,
        reason: if promote {
            "canary healthy; promote green environment".to_owned()
        } else {
            "hold promotion; continue canary analysis or rollback".to_owned()
        },
    }
}

fn dedup_key(signal: &IncidentSignal) -> (r: String)
    ensures
        r@ == dedup_text(*signal),
{
    let mut key: String = "verinode:".to_owned();
    key.append(signal.service.as_str());
    key.append(":");
    key.append(signal.metric.as_str());
    key.append(":");
    key.append(signal.severity.as_str());
    key
}

fn monitoring_queries(service: &str) -> (r: Vec<String>)
    ensures
        r@.map_values(|q: String| q@) == queries_of(service@),
{
    let mut queries: Vec<String> = Vec::new();
    queries.push(join3("latency_p99_ms{service=\"", service, "\"}"));
    queries.push(join3("availability_bps{service=\"", service, "\"}"));
    queries.push(join3("pagerduty_events_total{service=\"", service, "\"}"));
    assert(queries@.map_values(|q: String| q@) =~= queries_of(service@));
    queries
}

fn runbook_for(signal: &IncidentSignal) -> (r: Vec<RunbookStep>)
    ensures
        r@.map_values(|s: RunbookStep| s@) == runbook_of(*signal),
{
    let key: String = dedup_key(signal);
    let service: &str = signal.service.as_str();
    let mut steps: Vec<RunbookStep> = Vec::new();
    steps.push(
        RunbookStep {
            name: "acknowledge-page".to_owned(),
            command: join3("pd incident acknowledge --dedup-key ", key.as_str(), ""),
            rollback_command:
                "pd incident resolve --note 'false-positive or mitigated'".to_owned(),
            critical: signal.severity.is_page_required(),
        },
    );
    steps.push(
        RunbookStep {
            name: "enable-blue-green-canary".to_owned(),
            command: join3("deploy green --service ", service, " --canary 10"),
            rollback_command: join3("deploy rollback --service ", service, " --to blue"),
            critical: true,
        },
    );
    steps.push(
        RunbookStep {
            name: "capture-security-evidence".to_owned(),
            command: join3("security evidence collect --service ", service, ""),
            rollback_command: "security evidence archive --status superseded".to_owned(),
            critical: true,
        },
    );
    assert(steps@.map_values(|s: RunbookStep| s@) =~= runbook_of(*signal));
    steps
}

/// Incidents of the two highest severities page someone.
pub proof fn law_who_is_paged(s: IncidentSeverity)
    ensures
        pages(s) <==> s == IncidentSeverity::Sev1 || s == IncidentSeverity::Sev2,
{
}

/// Promotion takes a canary with at least 99.95 percent success and no burned error budget, and an
/// incident below the highest severity; the canary gets one percent of the traffic at the highest
/// severity and ten otherwise, and blue and green are always both kept.
pub proof fn law_gate_in_numbers(
    g: DeploymentGate,
    severity: IncidentSeverity,
    success_bps: u32,
    burn_bps: u32,
)
    requires
        is_gate_for(g, severity, success_bps, burn_bps),
    ensures
        g.promote <==> success_bps >= 9_995 && burn_bps == 0 && severity
            != IncidentSeverity::Sev1,
        severity == IncidentSeverity::Sev1 ==> g.canary_percent == 1,
        severity != IncidentSeverity::Sev1 ==> g.canary_percent == 10,
        g.blue_green_enabled,
        g.promote ==> g.reason@ == "canary healthy; promote green environment"@,
        !g.promote ==> g.reason@ == "hold promotion; continue canary analysis or rollback"@,
{
}

/// An event carries the key and the action it was asked for, the signal's own summary, service and
/// severity, and in its details the metric, the value observed and its threshold.
pub proof fn law_event_carries_the_signal(
    s: IncidentSignal,
    routing_key: Seq<char>,
    event_action: PagerDutyAction,
)
    ensures
        ({
            let e = event_of(s, routing_key, event_action);
            &&& e.routing_key == routing_key
            &&& e.event_action == event_action
            &&& e.dedup_key == "verinode:"@ + s.service@ + ":"@ + s.metric@ + ":"@ + severity_text(
                s.severity,
            )
            &&& e.summary == s.summary@
            &&& e.component == s.service@
            &&& e.severity == severity_text(s.severity)
            &&& e.source == "verinode-core"@
            &&& e.group == "protocol"@
            &&& e.custom_details.len() == 5
            &&& e.custom_details[0] == ("metric"@, s.metric@)
            &&& e.custom_details[1] == ("observed_value"@, decimal(s.observed_value as nat))
            &&& e.custom_details[2] == ("threshold"@, decimal(s.threshold as nat))
            &&& e.custom_details[3] == ("p99_budget_ms"@, decimal(100))
            &&& e.custom_details[4] == ("availability_target_bps"@, decimal(9_999))
        }),
{
}

/// The runbook acknowledges the page under the event's own key, brings in the canary with a way
/// back to blue, and collects evidence for the service; only the first step may be skipped, where
/// nobody is paged.
pub proof fn law_runbook_is_for_the_service(s: IncidentSignal)
    ensures
        ({
            let r = runbook_of(s);
            &&& r.len() == 3
            &&& r[0].name == "acknowledge-page"@
            &&& r[0].command == "pd incident acknowledge --dedup-key "@ + dedup_text(s)
            &&& r[0].critical == pages(s.severity)
            &&& r[1].name == "enable-blue-green-canary"@
            &&& r[1].command == "deploy green --service "@ + s.service@ + " --canary 10"@
            &&& r[1].rollback_command == "deploy rollback --service "@ + s.service@ + " --to blue"@
            &&& r[1].critical
            &&& r[2].name == "capture-security-evidence"@
            &&& r[2].command == "security evidence collect --service "@ + s.service@
            &&& r[2].critical
        }),
{
    reveal_strlit("");
    let a = "pd incident acknowledge --dedup-key "@ + dedup_text(s);
    let b = "security evidence collect --service "@ + s.service@;
    assert(a + ""@ =~= a);
    assert(b + ""@ =~= b);
}

} // verus!
