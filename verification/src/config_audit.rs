//! Runtime configuration auditing and drift detection.
//!
//! Compares an expected configuration baseline with an observed runtime snapshot by one scan over
//! the two sorted lists of entries, so callers can run it synchronously before a service accepts
//! traffic.

use vstd::prelude::*;

use crate::byte_order::{
    append, arrays_equal, lemma_bytes_before_asymmetric, lemma_bytes_before_irreflexive,
    lemma_bytes_before_total, lemma_bytes_before_transitive, lemma_encoding_injective,
    slice_before, text_before, text_equal, to_vec,
};
use crate::codec::{
    be64_at, be_digits, law_be_value_of_eight_bytes, lemma_be_digits_of_value, u64_to_be,
};
use crate::crypto::sha256::{sha256, sha256_digest};

verus! {

/// Maximum number of per-key drift records returned by a single audit.
pub const MAX_DRIFT_RECORDS: usize = 64;

/// Runtime configuration deployment stage.
#[derive(Clone, Copy, Debug, Eq, PartialEq)]
pub enum DeploymentStage {
    Development,
    Canary,
    Blue,
    Green,
    Production,
}

/// The number of a stage.
pub open spec fn stage_code(s: DeploymentStage) -> u8 {
    match s {
        DeploymentStage::Development => 0,
        DeploymentStage::Canary => 1,
        DeploymentStage::Blue => 2,
        DeploymentStage::Green => 3,
        DeploymentStage::Production => 4,
    }
}

/// Severity assigned to a configuration key.
#[derive(Clone, Copy, Debug, Eq, PartialEq, Ord, PartialOrd, Structural)]
pub enum ConfigSeverity {
    Informational,
    Warning,
    Critical,
}

/// The number of a severity.
pub open spec fn severity_code(s: ConfigSeverity) -> u8 {
    match s {
        ConfigSeverity::Informational => 0,
        ConfigSeverity::Warning => 1,
        ConfigSeverity::Critical => 2,
    }
}

/// The greater of two severities.
pub open spec fn graver(a: ConfigSeverity, b: ConfigSeverity) -> ConfigSeverity {
    if severity_code(a) >= severity_code(b) {
        a
    } else {
        b
    }
}

/// A single expected or observed runtime configuration value.
#[derive(Clone, Debug, Eq, PartialEq)]
pub struct ConfigEntry {
    pub service: String,
    pub key: String,
    pub value_hash: [u8; 32],
    pub severity: ConfigSeverity,
}

/// The identity of `a` comes before that of `b`: by service, then by key.
pub open spec fn identity_before(a: ConfigEntry, b: ConfigEntry) -> bool {
    text_before(a.service@, b.service@) || (a.service@ == b.service@ && text_before(a.key@, b.key@))
}

/// The entries are about the same service and key.
pub open spec fn same_identity(a: ConfigEntry, b: ConfigEntry) -> bool {
    a.service@ == b.service@ && a.key@ == b.key@
}

proof fn lemma_identity_order(a: ConfigEntry, b: ConfigEntry)
    ensures
        same_identity(a, b) || identity_before(a, b) || identity_before(b, a),
        !(identity_before(a, b) && identity_before(b, a)),
        same_identity(a, b) ==> !identity_before(a, b) && !identity_before(b, a),
{
    let sa = vstd::utf8::encode_utf8(a.service@);
    let sb = vstd::utf8::encode_utf8(b.service@);
    let ka = vstd::utf8::encode_utf8(a.key@);
    let kb = vstd::utf8::encode_utf8(b.key@);
    lemma_encoding_injective(a.service@, b.service@);
    lemma_encoding_injective(a.key@, b.key@);
    lemma_bytes_before_total(sa, sb);
    lemma_bytes_before_total(ka, kb);
    if text_before(a.service@, b.service@) {
        lemma_bytes_before_asymmetric(sa, sb);
    }
    if text_before(b.service@, a.service@) {
        lemma_bytes_before_asymmetric(sb, sa);
    }
    if text_before(a.key@, b.key@) {
        lemma_bytes_before_asymmetric(ka, kb);
    }
    if text_before(b.key@, a.key@) {
        lemma_bytes_before_asymmetric(kb, ka);
    }
}

proof fn lemma_identity_transitive(a: ConfigEntry, b: ConfigEntry, c: ConfigEntry)
    requires
        identity_before(a, b),
        identity_before(b, c),
    ensures
        identity_before(a, c),
{
    if text_before(a.service@, b.service@) && text_before(b.service@, c.service@) {
        lemma_bytes_before_transitive(
            vstd::utf8::encode_utf8(a.service@),
            vstd::utf8::encode_utf8(b.service@),
            vstd::utf8::encode_utf8(c.service@),
        );
    }
    if text_before(a.key@, b.key@) && text_before(b.key@, c.key@) {
        lemma_bytes_before_transitive(
            vstd::utf8::encode_utf8(a.key@),
            vstd::utf8::encode_utf8(b.key@),
            vstd::utf8::encode_utf8(c.key@),
        );
    }
}

impl ConfigEntry {
    /// An entry for the hash of a value.
    pub fn new(service: &str, key: &str, value: &[u8], severity: ConfigSeverity) -> (r: Self)
        ensures
            r.service@ == service@,
            r.key@ == key@,
            r.value_hash@ == sha256_digest(value@),
            r.severity == severity,
    {
        ConfigEntry {
            service: service.to_owned(),
            key: key.to_owned(),
            value_hash: sha256(value),
            severity,
        }
    }

    /// Whether this entry's identity comes before that of the other.
    fn identity_precedes(&self, other: &Self) -> (r: bool)
        ensures
            r == identity_before(*self, *other),
    {
        let a: &[u8] = self.service.as_str().as_bytes();
        let b: &[u8] = other.service.as_str().as_bytes();
        slice_before(a, b) || (text_equal(self.service.as_str(), other.service.as_str())
            && slice_before(self.key.as_str().as_bytes(), other.key.as_str().as_bytes()))
    }
}

/// A list with one more entry, behind all entries that do not come after it.
pub open spec fn with_entry(t: Seq<ConfigEntry>, x: ConfigEntry) -> Seq<ConfigEntry>
    decreases t.len(),
{
    if t.len() == 0 || !identity_before(x, t.last()) {
        t.push(x)
    } else {
        with_entry(t.drop_last(), x).push(t.last())
    }
}

/// The entries sorted by identity, those of the same identity in the order they came in.
pub open spec fn arranged(s: Seq<ConfigEntry>) -> Seq<ConfigEntry>
    decreases s.len(),
{
    if s.len() == 0 {
        Seq::empty()
    } else {
        with_entry(arranged(s.drop_last()), s.last())
    }
}

/// No entry comes after one behind it.
pub open spec fn in_order(s: Seq<ConfigEntry>) -> bool {
    forall|i: int, j: int|
        0 <= i < j < s.len() ==> !identity_before(#[trigger] s[j], #[trigger] s[i])
}

/// The identities ascend: each occurs once.
pub open spec fn identities_ascend(s: Seq<ConfigEntry>) -> bool {
    forall|i: int, j: int|
        0 <= i < j < s.len() ==> identity_before(#[trigger] s[i], #[trigger] s[j])
}

/// Has the same identity as `x`.
pub open spec fn like(x: ConfigEntry) -> spec_fn(ConfigEntry) -> bool {
    |e: ConfigEntry| same_identity(e, x)
}

proof fn lemma_with_entry(t: Seq<ConfigEntry>, x: ConfigEntry)
    requires
        in_order(t),
    ensures
        in_order(with_entry(t, x)),
        with_entry(t, x).to_multiset() == t.to_multiset().insert(x),
        with_entry(t, x).len() == t.len() + 1,
        forall|i: int|
            0 <= i <= t.len() ==> (#[trigger] with_entry(t, x)[i] == x || t.contains(
                with_entry(t, x)[i],
            )),
    decreases t.len(),
{
    vstd::seq_lib::to_multiset_build(t, x);
    lemma_identity_order(x, x);
    if t.len() == 0 || !identity_before(x, t.last()) {
        let r = t.push(x);
        assert forall|i: int, j: int| 0 <= i < j < r.len() implies !identity_before(
            #[trigger] r[j],
            #[trigger] r[i],
        ) by {
            if j == t.len() && i < t.len() - 1 {
                let last = t[t.len() - 1];
                lemma_identity_order(last, t[i]);
                lemma_identity_order(x, last);
                if identity_before(x, t[i]) {
                    if identity_before(t[i], last) {
                        lemma_identity_transitive(x, t[i], last);
                    } else {
                        assert(!identity_before(last, t[i]));
                        lemma_identity_order(t[i], last);
                        assert(same_identity(t[i], last));
                        assert(identity_before(x, last));
                    }
                }
            }
        }
        assert forall|i: int| 0 <= i <= t.len() implies (#[trigger] r[i] == x || t.contains(
            r[i],
        )) by {
            if i < t.len() {
                assert(r[i] == t[i]);
            }
        }
    } else {
        let init = t.drop_last();
        let last = t.last();
        lemma_with_entry(init, x);
        let u = with_entry(init, x);
        let r = u.push(last);
        vstd::seq_lib::to_multiset_build(init, last);
        vstd::seq_lib::to_multiset_build(u, last);
        assert(t =~= init.push(last));
        assert(r.to_multiset() =~= t.to_multiset().insert(x));
        assert forall|i: int, j: int| 0 <= i < j < r.len() implies !identity_before(
            #[trigger] r[j],
            #[trigger] r[i],
        ) by {
            if j == u.len() {
                assert(u[i] == x || init.contains(u[i]));
                if u[i] == x {
                    lemma_identity_order(x, last);
                } else {
                    let k = choose|k: int| 0 <= k < init.len() && init[k] == u[i];
                    assert(t[k] == u[i]);
                    assert(!identity_before(t[t.len() - 1], t[k]));
                }
            }
        }
        assert forall|i: int| 0 <= i <= t.len() implies (#[trigger] r[i] == x || t.contains(
            r[i],
        )) by {
            if i < u.len() {
                assert(u[i] == x || init.contains(u[i]));
                if u[i] != x {
                    let k = choose|k: int| 0 <= k < init.len() && init[k] == u[i];
                    assert(t[k] == r[i]);
                }
            } else {
                assert(t[t.len() - 1] == r[i]);
            }
        }
    }
}

proof fn lemma_with_entry_stable(t: Seq<ConfigEntry>, x: ConfigEntry, id: ConfigEntry)
    ensures
        with_entry(t, x).filter(like(id)) == if same_identity(x, id) {
            t.filter(like(id)).push(x)
        } else {
            t.filter(like(id))
        },
    decreases t.len(),
{
    reveal(Seq::filter);
    if t.len() == 0 || !identity_before(x, t.last()) {
        assert(t.push(x).drop_last() =~= t);
    } else {
        let init = t.drop_last();
        let last = t.last();
        lemma_with_entry_stable(init, x, id);
        let u = with_entry(init, x);
        assert(u.push(last).drop_last() =~= u);
        lemma_identity_order(x, last);
    }
}

/// Arranging sorts the entries, loses none and adds none, and keeps those of one identity in their
/// order.
pub proof fn law_arranging_is_a_stable_sort(s: Seq<ConfigEntry>, id: ConfigEntry)
    ensures
        in_order(arranged(s)),
        arranged(s).to_multiset() == s.to_multiset(),
        arranged(s).filter(like(id)) == s.filter(like(id)),
    decreases s.len(),
{
    reveal(Seq::filter);
    if s.len() > 0 {
        let init = s.drop_last();
        law_arranging_is_a_stable_sort(init, id);
        lemma_with_entry(arranged(init), s.last());
        lemma_with_entry_stable(arranged(init), s.last(), id);
        vstd::seq_lib::to_multiset_build(init, s.last());
        assert(s =~= init.push(s.last()));
    } else {
        assert(s =~= Seq::empty());
    }
}

proof fn lemma_with_entry_at(t: Seq<ConfigEntry>, x: ConfigEntry, k: int)
    requires
        0 <= k <= t.len(),
        forall|j: int| k <= j < t.len() ==> identity_before(x, #[trigger] t[j]),
        k > 0 ==> !identity_before(x, t[k - 1]),
    ensures
        with_entry(t, x) == t.insert(k, x),
    decreases t.len(),
{
    if k == t.len() {
        assert(t.insert(k, x) =~= t.push(x));
    } else {
        let init = t.drop_last();
        assert forall|j: int| k <= j < init.len() implies identity_before(x, #[trigger] init[j]) by {
            assert(identity_before(x, t[j]));
        }
        assert(identity_before(x, t[t.len() - 1]));
        lemma_with_entry_at(init, x, k);
        assert(t.insert(k, x) =~= init.insert(k, x).push(t.last()));
    }
}

/// Sorts entries by identity, keeping the order of those that share one.
fn sort_entries(entries: &mut Vec<ConfigEntry>)
    ensures
        final(entries)@ == arranged(old(entries)@),
{
    let ghost s = entries@;
    let n: usize = entries.len();
    let mut i: usize = 0;
    proof {
        assert(s.take(0) =~= Seq::<ConfigEntry>::empty());
        assert(entries@ =~= arranged(s.take(0)) + s.skip(0));
    }
    while i < n
        invariant
            n == s.len(),
            entries@.len() == n,
            i <= n,
            arranged(s.take(i as int)).len() == i,
            entries@ == arranged(s.take(i as int)) + s.skip(i as int),
        decreases n - i,
    {
        let ghost t = arranged(s.take(i as int));
        let x: ConfigEntry = entries.remove(i);
        proof {
            assert(x == s[i as int]);
            assert(entries@ =~= t + s.skip(i + 1));
        }
        let mut k: usize = i;
        let mut searching: bool = k > 0;
        while searching
            invariant
                k <= i,
                t.len() == i,
                i < s.len(),
                entries@ == t + s.skip(i + 1),
                entries@.len() == s.len() - 1,
                searching ==> k > 0,
                !searching && k > 0 ==> !identity_before(x, t[k - 1]),
                forall|j: int| k <= j < t.len() ==> identity_before(x, #[trigger] t[j]),
            decreases
                k + (if searching {
                    1int
                } else {
                    0int
                }),
        {
            assert(entries@[k - 1] == t[k - 1]);
            if x.identity_precedes(&entries[k - 1]) {
                k = k - 1;
                searching = k > 0;
            } else {
                searching = false;
            }
        }
        proof {
            lemma_with_entry_at(t, x, k as int);
            assert(s.take(i + 1).drop_last() =~= s.take(i as int));
            assert(s.take(i + 1).last() == x);
            assert((t + s.skip(i + 1)).insert(k as int, x) =~= t.insert(k as int, x) + s.skip(
                i + 1,
            ));
        }
        entries.insert(k, x);
        i = i + 1;
    }
    proof {
        assert(s.take(n as int) =~= s);
        assert(entries@ =~= arranged(s));
    }
}

/// Signed-off baseline for a rollout stage.
#[derive(Clone, Debug, Eq, PartialEq)]
pub struct ConfigBaseline {
    pub version: u64,
    pub stage: DeploymentStage,
    pub generated_at_epoch: u64,
    pub entries: Vec<ConfigEntry>,
    pub digest: [u8; 32],
}

/// The bytes of an entry that go into the digest.
pub open spec fn entry_bytes(e: ConfigEntry) -> Seq<u8> {
    vstd::utf8::encode_utf8(e.service@) + seq![0u8] + vstd::utf8::encode_utf8(e.key@) + seq![0u8]
        + e.value_hash@ + seq![severity_code(e.severity)]
}

/// The bytes of some entries, one behind the other.
pub open spec fn entries_bytes(s: Seq<ConfigEntry>) -> Seq<u8>
    decreases s.len(),
{
    if s.len() == 0 {
        Seq::empty()
    } else {
        entries_bytes(s.drop_last()) + entry_bytes(s.last())
    }
}

/// The digest of a baseline: the hash of a tag, the version, the stage, the epoch and the entries.
pub open spec fn baseline_digest(
    version: u64,
    stage: DeploymentStage,
    generated_at_epoch: u64,
    entries: Seq<ConfigEntry>,
) -> Seq<u8> {
    sha256_digest(
        vstd::utf8::encode_utf8("verinode-config-baseline-v1"@) + be_digits(version as nat, 8)
            + seq![stage_code(stage)] + be_digits(generated_at_epoch as nat, 8) + entries_bytes(
            entries,
        ),
    )
}

impl ConfigBaseline {
    /// A baseline of some entries, sorted and digested.
    pub fn new(
        version: u64,
        stage: DeploymentStage,
        generated_at_epoch: u64,
        entries: Vec<ConfigEntry>,
    ) -> (r: Self)
        ensures
            r.version == version,
            r.stage == stage,
            r.generated_at_epoch == generated_at_epoch,
            r.entries@ == arranged(entries@),
            r.digest@ == baseline_digest(
                version,
                stage,
                generated_at_epoch,
                arranged(entries@),
            ),
    {
        let mut sorted: Vec<ConfigEntry> = entries;
        sort_entries(&mut sorted);
        let digest: [u8; 32] = digest_entries(
            version,
            stage,
            generated_at_epoch,
            sorted.as_slice(),
        );
        ConfigBaseline { version, stage, generated_at_epoch, entries: sorted, digest }
    }
}

/// Observed runtime snapshot collected from a service fleet.
#[derive(Clone, Debug, Eq, PartialEq)]
pub struct RuntimeSnapshot {
    pub observed_at_epoch: u64,
    pub entries: Vec<ConfigEntry>,
}

impl RuntimeSnapshot {
    /// A snapshot of some entries, sorted.
    pub fn new(observed_at_epoch: u64, entries: Vec<ConfigEntry>) -> (r: Self)
        ensures
            r.observed_at_epoch == observed_at_epoch,
            r.entries@ == arranged(entries@),
    {
        let mut sorted: Vec<ConfigEntry> = entries;
        sort_entries(&mut sorted);
        RuntimeSnapshot { observed_at_epoch, entries: sorted }
    }
}

/// Drift classification for a single configuration identity.
#[derive(Clone, Copy, Debug, Eq, PartialEq)]
pub enum DriftKind {
    Missing,
    Unexpected,
    ValueChanged,
    SeverityChanged,
}

/// Auditable drift finding.
#[derive(Clone, Debug, Eq, PartialEq)]
pub struct DriftRecord {
    pub service: String,
    pub key: String,
    pub kind: DriftKind,
    pub severity: ConfigSeverity,
}

/// Aggregate audit decision suitable for alert routing and rollout gates.
#[derive(Clone, Debug, Eq, PartialEq)]
pub struct AuditReport {
    pub baseline_version: u64,
    pub stage: DeploymentStage,
    pub observed_at_epoch: u64,
    pub baseline_digest: [u8; 32],
    pub drift_count: u32,
    pub critical_drift_count: u32,
    pub records: Vec<DriftRecord>,
}

impl AuditReport {
    /// Whether nothing critical has drifted.
    pub fn is_rollout_safe(&self) -> (r: bool)
        ensures
            r == (self.critical_drift_count == 0),
    {
        self.critical_drift_count == 0
    }

    /// Whether anything has drifted.
    pub fn should_alert(&self) -> (r: bool)
        ensures
            r == (self.drift_count > 0),
    {
        self.drift_count > 0
    }
}

/// The record of a drift of an entry.
pub open spec fn drift_record(e: ConfigEntry, kind: DriftKind, severity: ConfigSeverity) -> DriftRecord {
    DriftRecord { service: e.service, key: e.key, kind, severity }
}

/// How an observed entry differs from the expected one of the same identity, if it does.
pub open spec fn change_of(expected: ConfigEntry, actual: ConfigEntry) -> Option<DriftRecord> {
    if expected.value_hash != actual.value_hash {
        Some(
            drift_record(
                expected,
                DriftKind::ValueChanged,
                graver(expected.severity, actual.severity),
            ),
        )
    } else if expected.severity != actual.severity {
        Some(
            drift_record(
                expected,
                DriftKind::SeverityChanged,
                graver(expected.severity, actual.severity),
            ),
        )
    } else {
        None
    }
}

/// The drift between the expected entries from place `i` on and the observed ones from place `j`
/// on: both lists are walked by identity.
pub open spec fn drift_from(b: Seq<ConfigEntry>, s: Seq<ConfigEntry>, i: int, j: int) -> Seq<
    DriftRecord,
>
    decreases b.len() - i + (s.len() - j),
{
    if i < 0 || i > b.len() || j < 0 || j > s.len() || (i == b.len() && j == s.len()) {
        Seq::empty()
    } else if j >= s.len() || (i < b.len() && identity_before(b[i], s[j])) {
        seq![drift_record(b[i], DriftKind::Missing, b[i].severity)] + drift_from(b, s, i + 1, j)
    } else if i >= b.len() || identity_before(s[j], b[i]) {
        seq![drift_record(s[j], DriftKind::Unexpected, s[j].severity)] + drift_from(b, s, i, j + 1)
    } else {
        (match change_of(b[i], s[j]) {
            Some(d) => seq![d],
            None => Seq::empty(),
        }) + drift_from(b, s, i + 1, j + 1)
    }
}

/// The drift between the expected and the observed entries.
pub open spec fn drift(b: Seq<ConfigEntry>, s: Seq<ConfigEntry>) -> Seq<DriftRecord> {
    drift_from(b, s, 0, 0)
}

/// How many of some records are critical.
pub open spec fn critical_count(records: Seq<DriftRecord>) -> nat
    decreases records.len(),
{
    if records.len() == 0 {
        0
    } else {
        critical_count(records.drop_last()) + (if records.last().severity
            == ConfigSeverity::Critical {
            1nat
        } else {
            0nat
        })
    }
}

/// The first records, as many as a report may hold.
pub open spec fn reported(records: Seq<DriftRecord>) -> Seq<DriftRecord> {
    if records.len() <= MAX_DRIFT_RECORDS {
        records
    } else {
        records.take(MAX_DRIFT_RECORDS as int)
    }
}

/// The expected entry at place `x` has no counterpart among the observed ones from `j` on.
pub open spec fn unmatched(e: ConfigEntry, s: Seq<ConfigEntry>, j: int) -> bool {
    forall|y: int| j <= y < s.len() ==> !same_identity(e, #[trigger] s[y])
}

/// `d` records an entry that is missing, one that is unexpected, or one that has changed.
pub open spec fn is_drift(
    b: Seq<ConfigEntry>,
    s: Seq<ConfigEntry>,
    i: int,
    j: int,
    d: DriftRecord,
) -> bool {
    ||| exists|x: int|
        i <= x < b.len() && d == drift_record(
            #[trigger] b[x],
            DriftKind::Missing,
            b[x].severity,
        ) && unmatched(b[x], s, j)
    ||| exists|y: int|
        j <= y < s.len() && d == drift_record(
            #[trigger] s[y],
            DriftKind::Unexpected,
            s[y].severity,
        ) && unmatched(s[y], b, i)
    ||| exists|x: int, y: int|
        i <= x < b.len() && j <= y < s.len() && #[trigger] same_identity(b[x], s[y]) && change_of(
            b[x],
            s[y],
        ) == Some(d)
}

proof fn lemma_before_all(e: ConfigEntry, s: Seq<ConfigEntry>, j: int)
    requires
        identities_ascend(s),
        0 <= j,
        j < s.len() ==> identity_before(e, s[j]),
    ensures
        unmatched(e, s, j),
{
    assert forall|y: int| j <= y < s.len() implies !same_identity(e, #[trigger] s[y]) by {
        if j < y {
            assert(identity_before(s[j], s[y]));
            lemma_identity_transitive(e, s[j], s[y]);
        }
        lemma_identity_order(e, s[y]);
    }
}

proof fn lemma_equal_matches_only_first(e: ConfigEntry, s: Seq<ConfigEntry>, j: int)
    requires
        identities_ascend(s),
        0 <= j < s.len(),
        same_identity(e, s[j]),
    ensures
        unmatched(e, s, j + 1),
{
    assert forall|y: int| j + 1 <= y < s.len() implies !same_identity(e, #[trigger] s[y]) by {
        assert(identity_before(s[j], s[y]));
        lemma_identity_order(s[j], s[y]);
    }
}

proof fn lemma_drift_exact(
    b: Seq<ConfigEntry>,
    s: Seq<ConfigEntry>,
    i: int,
    j: int,
    d: DriftRecord,
)
    requires
        identities_ascend(b),
        identities_ascend(s),
        0 <= i <= b.len(),
        0 <= j <= s.len(),
    ensures
        drift_from(b, s, i, j).contains(d) <==> is_drift(b, s, i, j, d),
    decreases b.len() - i + (s.len() - j),
{
    let all = drift_from(b, s, i, j);
    if i >= b.len() && j >= s.len() {
        assert(!all.contains(d));
    } else if j >= s.len() || (i < b.len() && identity_before(b[i], s[j])) {
        let m = drift_record(b[i], DriftKind::Missing, b[i].severity);
        let rest = drift_from(b, s, i + 1, j);
        lemma_drift_exact(b, s, i + 1, j, d);
        lemma_before_all(b[i], s, j);
        lemma_contains_front(m, rest, d);
        assert forall|y: int| j <= y < s.len() implies (unmatched(#[trigger] s[y], b, i)
            <==> unmatched(s[y], b, i + 1)) by {
            assert(!same_identity(b[i], s[y]));
        }
        if is_drift(b, s, i, j, d) && d != m {
            assert(is_drift(b, s, i + 1, j, d));
        }
        if d == m {
            assert(is_drift(b, s, i, j, d));
        }
        if is_drift(b, s, i + 1, j, d) {
            assert(is_drift(b, s, i, j, d));
        }
    } else if i >= b.len() || identity_before(s[j], b[i]) {
        let m = drift_record(s[j], DriftKind::Unexpected, s[j].severity);
        let rest = drift_from(b, s, i, j + 1);
        lemma_drift_exact(b, s, i, j + 1, d);
        lemma_before_all(s[j], b, i);
        lemma_contains_front(m, rest, d);
        assert forall|x: int| i <= x < b.len() implies (unmatched(#[trigger] b[x], s, j)
            <==> unmatched(b[x], s, j + 1)) by {
            assert(!same_identity(s[j], b[x]));
        }
        if is_drift(b, s, i, j, d) && d != m {
            assert(is_drift(b, s, i, j + 1, d));
        }
        if d == m {
            assert(is_drift(b, s, i, j, d));
        }
        if is_drift(b, s, i, j + 1, d) {
            assert(is_drift(b, s, i, j, d));
        }
    } else {
        lemma_identity_order(b[i], s[j]);
        assert(same_identity(b[i], s[j]));
        let rest = drift_from(b, s, i + 1, j + 1);
        lemma_drift_exact(b, s, i + 1, j + 1, d);
        lemma_equal_matches_only_first(b[i], s, j);
        lemma_equal_matches_only_first(s[j], b, i);
        match change_of(b[i], s[j]) {
            Some(c) => {
                lemma_contains_front(c, rest, d);
            },
            None => {
                assert(all =~= rest);
            },
        }
        assert forall|x: int| i + 1 <= x < b.len() implies (unmatched(#[trigger] b[x], s, j)
            <==> unmatched(b[x], s, j + 1)) by {
            assert(!same_identity(s[j], b[x]));
        }
        assert forall|y: int| j + 1 <= y < s.len() implies (unmatched(#[trigger] s[y], b, i)
            <==> unmatched(s[y], b, i + 1)) by {
            assert(!same_identity(b[i], s[y]));
        }
        assert(!unmatched(b[i], s, j));
        assert(!unmatched(s[j], b, i)) by {
            assert(same_identity(s[j], b[i]));
        }
        if is_drift(b, s, i, j, d) && change_of(b[i], s[j]) != Some(d) {
            if exists|x: int, y: int|
                i <= x < b.len() && j <= y < s.len() && #[trigger] same_identity(b[x], s[y])
                    && change_of(b[x], s[y]) == Some(d) {
                let (x, y) = choose|x: int, y: int|
                    i <= x < b.len() && j <= y < s.len() && #[trigger] same_identity(b[x], s[y])
                        && change_of(b[x], s[y]) == Some(d);
                if x == i {
                    assert(!(j + 1 <= y));
                }
                if y == j {
                    assert(same_identity(s[j], b[x]));
                    assert(!(i + 1 <= x));
                }
                assert(i + 1 <= x && j + 1 <= y);
            }
            assert(is_drift(b, s, i + 1, j + 1, d));
        }
        if change_of(b[i], s[j]) == Some(d) {
            assert(is_drift(b, s, i, j, d));
        }
        if is_drift(b, s, i + 1, j + 1, d) {
            assert(is_drift(b, s, i, j, d));
        }
    }
}

proof fn lemma_contains_front(m: DriftRecord, rest: Seq<DriftRecord>, d: DriftRecord)
    ensures
        (seq![m] + rest).contains(d) <==> d == m || rest.contains(d),
{
    let all = seq![m] + rest;
    if d == m {
        assert(all[0] == d);
    }
    if rest.contains(d) {
        let k = choose|k: int| 0 <= k < rest.len() && rest[k] == d;
        assert(all[k + 1] == d);
    }
    if all.contains(d) && d != m {
        let k = choose|k: int| 0 <= k < all.len() && all[k] == d;
        assert(rest[k - 1] == d);
    }
}

/// Where each identity occurs once in the baseline and once in the snapshot, the audit finds
/// exactly the entries that are missing, unexpected or changed.
pub proof fn law_audit_finds_exactly_the_drift(
    b: Seq<ConfigEntry>,
    s: Seq<ConfigEntry>,
    d: DriftRecord,
)
    requires
        identities_ascend(b),
        identities_ascend(s),
    ensures
        drift(b, s).contains(d) <==> is_drift(b, s, 0, 0, d),
{
    lemma_drift_exact(b, s, 0, 0, d);
}

proof fn lemma_drift_len(b: Seq<ConfigEntry>, s: Seq<ConfigEntry>, i: int, j: int)
    requires
        0 <= i <= b.len(),
        0 <= j <= s.len(),
    ensures
        drift_from(b, s, i, j).len() <= b.len() - i + (s.len() - j),
    decreases b.len() - i + (s.len() - j),
{
    if i == b.len() && j == s.len() {
    } else if j >= s.len() || (i < b.len() && identity_before(b[i], s[j])) {
        lemma_drift_len(b, s, i + 1, j);
    } else if i >= b.len() || identity_before(s[j], b[i]) {
        lemma_drift_len(b, s, i, j + 1);
    } else {
        lemma_drift_len(b, s, i + 1, j + 1);
    }
}

/// There are no more drift records than entries in both lists.
pub proof fn law_drift_is_bounded(b: Seq<ConfigEntry>, s: Seq<ConfigEntry>)
    ensures
        drift(b, s).len() <= b.len() + s.len(),
{
    lemma_drift_len(b, s, 0, 0);
}

/// What a drift record says.
pub struct DriftModel {
    pub service: Seq<char>,
    pub key: Seq<char>,
    pub kind: DriftKind,
    pub severity: ConfigSeverity,
}

impl View for DriftRecord {
    type V = DriftModel;

    open spec fn view(&self) -> DriftModel {
        DriftModel {
            service: self.service@,
            key: self.key@,
            kind: self.kind,
            severity: self.severity,
        }
    }
}

/// The identity of one record comes before that of another: by service, then by key.
pub open spec fn record_before(a: DriftRecord, b: DriftRecord) -> bool {
    text_before(a.service@, b.service@) || (a.service@ == b.service@ && text_before(a.key@, b.key@))
}

/// The record is about the identity of the entry.
spec fn is_about(d: DriftRecord, e: ConfigEntry) -> bool {
    d.service@ == e.service@ && d.key@ == e.key@
}

/// Every record of the drift from two places on is about an entry from there on.
proof fn lemma_drift_about(b: Seq<ConfigEntry>, s: Seq<ConfigEntry>, i: int, j: int, k: int)
    requires
        0 <= i <= b.len(),
        0 <= j <= s.len(),
        0 <= k < drift_from(b, s, i, j).len(),
    ensures
        ({
            let d = drift_from(b, s, i, j)[k];
            ||| exists|x: int| i <= x < b.len() && is_about(d, #[trigger] b[x])
            ||| exists|y: int| j <= y < s.len() && is_about(d, #[trigger] s[y])
        }),
    decreases b.len() - i + (s.len() - j),
{
    let d = drift_from(b, s, i, j)[k];
    if j >= s.len() || (i < b.len() && identity_before(b[i], s[j])) {
        if k == 0 {
            assert(is_about(d, b[i]));
        } else {
            lemma_drift_about(b, s, i + 1, j, k - 1);
            assert(d == drift_from(b, s, i + 1, j)[k - 1]);
        }
    } else if i >= b.len() || identity_before(s[j], b[i]) {
        if k == 0 {
            assert(is_about(d, s[j]));
        } else {
            lemma_drift_about(b, s, i, j + 1, k - 1);
            assert(d == drift_from(b, s, i, j + 1)[k - 1]);
        }
    } else {
        let n: int = if change_of(b[i], s[j]) is Some {
            1
        } else {
            0
        };
        if k < n {
            assert(is_about(d, b[i]));
        } else {
            lemma_drift_about(b, s, i + 1, j + 1, k - n);
            assert(d == drift_from(b, s, i + 1, j + 1)[k - n]);
        }
    }
}

/// A record that is about an entry comes before all the drift from two places on, where the entry
/// comes before all entries from there on.
proof fn lemma_before_drift(
    d: DriftRecord,
    e: ConfigEntry,
    b: Seq<ConfigEntry>,
    s: Seq<ConfigEntry>,
    i: int,
    j: int,
    k: int,
)
    requires
        is_about(d, e),
        0 <= i <= b.len(),
        0 <= j <= s.len(),
        forall|x: int| i <= x < b.len() ==> identity_before(e, #[trigger] b[x]),
        forall|y: int| j <= y < s.len() ==> identity_before(e, #[trigger] s[y]),
        0 <= k < drift_from(b, s, i, j).len(),
    ensures
        record_before(d, drift_from(b, s, i, j)[k]),
{
    lemma_drift_about(b, s, i, j, k);
    let r = drift_from(b, s, i, j)[k];
    if exists|x: int| i <= x < b.len() && is_about(r, #[trigger] b[x]) {
        let x = choose|x: int| i <= x < b.len() && is_about(r, #[trigger] b[x]);
        assert(identity_before(e, b[x]));
    } else {
        let y = choose|y: int| j <= y < s.len() && is_about(r, #[trigger] s[y]);
        assert(identity_before(e, s[y]));
    }
}

/// An entry that comes before the one at a place of an ascending list comes before all from there
/// on.
proof fn lemma_before_rest(e: ConfigEntry, s: Seq<ConfigEntry>, j: int)
    requires
        identities_ascend(s),
        0 <= j,
        j < s.len() ==> identity_before(e, s[j]),
    ensures
        forall|y: int| j <= y < s.len() ==> identity_before(e, #[trigger] s[y]),
{
    assert forall|y: int| j <= y < s.len() implies identity_before(e, #[trigger] s[y]) by {
        if j < y {
            assert(identity_before(s[j], s[y]));
            lemma_identity_transitive(e, s[j], s[y]);
        }
    }
}

proof fn lemma_drift_ascends(b: Seq<ConfigEntry>, s: Seq<ConfigEntry>, i: int, j: int)
    requires
        identities_ascend(b),
        identities_ascend(s),
        0 <= i <= b.len(),
        0 <= j <= s.len(),
    ensures
        forall|x: int, y: int|
            0 <= x < y < drift_from(b, s, i, j).len() ==> record_before(
                #[trigger] drift_from(b, s, i, j)[x],
                #[trigger] drift_from(b, s, i, j)[y],
            ),
    decreases b.len() - i + (s.len() - j),
{
    let all = drift_from(b, s, i, j);
    if i >= b.len() && j >= s.len() {
    } else if j >= s.len() || (i < b.len() && identity_before(b[i], s[j])) {
        let rest = drift_from(b, s, i + 1, j);
        lemma_drift_ascends(b, s, i + 1, j);
        if i + 1 < b.len() {
            assert(identity_before(b[i], b[i + 1]));
        }
        lemma_before_rest(b[i], b, i + 1);
        lemma_before_rest(b[i], s, j);
        assert forall|x: int, y: int| 0 <= x < y < all.len() implies record_before(
            #[trigger] all[x],
            #[trigger] all[y],
        ) by {
            assert(all[y] == rest[y - 1]);
            if x == 0 {
                lemma_before_drift(all[0], b[i], b, s, i + 1, j, y - 1);
            } else {
                assert(all[x] == rest[x - 1]);
            }
        }
    } else if i >= b.len() || identity_before(s[j], b[i]) {
        let rest = drift_from(b, s, i, j + 1);
        lemma_drift_ascends(b, s, i, j + 1);
        if j + 1 < s.len() {
            assert(identity_before(s[j], s[j + 1]));
        }
        lemma_before_rest(s[j], s, j + 1);
        lemma_before_rest(s[j], b, i);
        assert forall|x: int, y: int| 0 <= x < y < all.len() implies record_before(
            #[trigger] all[x],
            #[trigger] all[y],
        ) by {
            assert(all[y] == rest[y - 1]);
            if x == 0 {
                lemma_before_drift(all[0], s[j], b, s, i, j + 1, y - 1);
            } else {
                assert(all[x] == rest[x - 1]);
            }
        }
    } else {
        lemma_identity_order(b[i], s[j]);
        let rest = drift_from(b, s, i + 1, j + 1);
        lemma_drift_ascends(b, s, i + 1, j + 1);
        if i + 1 < b.len() {
            assert(identity_before(b[i], b[i + 1]));
        }
        if j + 1 < s.len() {
            assert(identity_before(s[j], s[j + 1]));
            assert(identity_before(b[i], s[j + 1]));
        }
        lemma_before_rest(b[i], b, i + 1);
        lemma_before_rest(b[i], s, j + 1);
        let n: int = if change_of(b[i], s[j]) is Some {
            1
        } else {
            0
        };
        assert forall|x: int, y: int| 0 <= x < y < all.len() implies record_before(
            #[trigger] all[x],
            #[trigger] all[y],
        ) by {
            assert(all[y] == rest[y - n]);
            if x < n {
                lemma_before_drift(all[0], b[i], b, s, i + 1, j + 1, y - n);
            } else {
                assert(all[x] == rest[x - n]);
            }
        }
    }
}

/// Where each identity occurs once in the baseline and once in the snapshot, the records of an
/// audit ascend strictly by identity: no identity is reported twice.
pub proof fn law_drift_ascends(b: Seq<ConfigEntry>, s: Seq<ConfigEntry>)
    requires
        identities_ascend(b),
        identities_ascend(s),
    ensures
        forall|x: int, y: int|
            0 <= x < y < drift(b, s).len() ==> record_before(
                #[trigger] drift(b, s)[x],
                #[trigger] drift(b, s)[y],
            ),
{
    lemma_drift_ascends(b, s, 0, 0);
}

/// The record as seen from the other side: what is missing there is unexpected here.
pub open spec fn exchanged(d: DriftModel) -> DriftModel {
    DriftModel {
        kind: match d.kind {
            DriftKind::Missing => DriftKind::Unexpected,
            DriftKind::Unexpected => DriftKind::Missing,
            other => other,
        },
        ..d
    }
}

/// What some records say.
pub open spec fn record_models(records: Seq<DriftRecord>) -> Seq<DriftModel> {
    Seq::new(records.len(), |i: int| records[i]@)
}

/// What some records say from the other side.
pub open spec fn exchanged_models(records: Seq<DriftRecord>) -> Seq<DriftModel> {
    Seq::new(records.len(), |i: int| exchanged(records[i]@))
}

proof fn lemma_exchange_front(
    m: Seq<DriftRecord>,
    rest: Seq<DriftRecord>,
    n: Seq<DriftRecord>,
    other: Seq<DriftRecord>,
)
    requires
        record_models(n) == exchanged_models(m),
        record_models(other) == exchanged_models(rest),
    ensures
        record_models(n + other) == exchanged_models(m + rest),
{
    assert(record_models(n).len() == n.len() && exchanged_models(m).len() == m.len());
    assert(n.len() == m.len());
    assert(record_models(other).len() == other.len() && exchanged_models(rest).len()
        == rest.len());
    assert forall|i: int| 0 <= i < (m + rest).len() implies record_models(n + other)[i]
        == exchanged_models(m + rest)[i] by {
        if i < m.len() {
            assert((n + other)[i] == n[i] && (m + rest)[i] == m[i]);
            assert(record_models(n)[i] == n[i]@);
            assert(exchanged_models(m)[i] == exchanged(m[i]@));
        } else {
            let k = i - m.len();
            assert((n + other)[i] == other[k] && (m + rest)[i] == rest[k]);
            assert(record_models(other)[k] == other[k]@);
            assert(exchanged_models(rest)[k] == exchanged(rest[k]@));
        }
    }
    assert(record_models(n + other) =~= exchanged_models(m + rest));
}

proof fn lemma_drift_exchanged(b: Seq<ConfigEntry>, s: Seq<ConfigEntry>, i: int, j: int)
    requires
        0 <= i <= b.len(),
        0 <= j <= s.len(),
    ensures
        record_models(drift_from(s, b, j, i)) == exchanged_models(drift_from(b, s, i, j)),
    decreases b.len() - i + (s.len() - j),
{
    if i >= b.len() && j >= s.len() {
        assert(record_models(drift_from(s, b, j, i)) =~= exchanged_models(drift_from(b, s, i, j)));
    } else if j >= s.len() || (i < b.len() && identity_before(b[i], s[j])) {
        if j < s.len() {
            lemma_identity_order(b[i], s[j]);
        }
        lemma_drift_exchanged(b, s, i + 1, j);
        let m = seq![drift_record(b[i], DriftKind::Missing, b[i].severity)];
        let n = seq![drift_record(b[i], DriftKind::Unexpected, b[i].severity)];
        assert(record_models(n) =~= exchanged_models(m));
        lemma_exchange_front(m, drift_from(b, s, i + 1, j), n, drift_from(s, b, j, i + 1));
    } else if i >= b.len() || identity_before(s[j], b[i]) {
        lemma_drift_exchanged(b, s, i, j + 1);
        let m = seq![drift_record(s[j], DriftKind::Unexpected, s[j].severity)];
        let n = seq![drift_record(s[j], DriftKind::Missing, s[j].severity)];
        assert(record_models(n) =~= exchanged_models(m));
        lemma_exchange_front(m, drift_from(b, s, i, j + 1), n, drift_from(s, b, j + 1, i));
    } else {
        lemma_identity_order(b[i], s[j]);
        lemma_drift_exchanged(b, s, i + 1, j + 1);
        let m: Seq<DriftRecord> = match change_of(b[i], s[j]) {
            Some(d) => seq![d],
            None => Seq::empty(),
        };
        let n: Seq<DriftRecord> = match change_of(s[j], b[i]) {
            Some(d) => seq![d],
            None => Seq::empty(),
        };
        assert(graver(b[i].severity, s[j].severity) == graver(s[j].severity, b[i].severity));
        assert(record_models(n) =~= exchanged_models(m));
        lemma_exchange_front(m, drift_from(b, s, i + 1, j + 1), n, drift_from(s, b, j + 1, i + 1));
    }
}

/// Exchanging the two sides of an audit exchanges what is missing and what is unexpected, and
/// changes nothing else.
pub proof fn law_exchanging_sides_exchanges_missing_and_unexpected(
    b: Seq<ConfigEntry>,
    s: Seq<ConfigEntry>,
)
    ensures
        record_models(drift(s, b)) == exchanged_models(drift(b, s)),
{
    lemma_drift_exchanged(b, s, 0, 0);
}

/// No identity occurs twice.
pub open spec fn identities_distinct(s: Seq<ConfigEntry>) -> bool {
    forall|i: int, j: int|
        0 <= i < j < s.len() ==> !same_identity(#[trigger] s[i], #[trigger] s[j])
}

proof fn lemma_with_entry_ascends(t: Seq<ConfigEntry>, x: ConfigEntry)
    requires
        identities_ascend(t),
        unmatched(x, t, 0),
    ensures
        identities_ascend(with_entry(t, x)),
        forall|i: int|
            0 <= i < with_entry(t, x).len() ==> (#[trigger] with_entry(t, x)[i] == x || t.contains(
                with_entry(t, x)[i],
            )),
    decreases t.len(),
{
    let r = with_entry(t, x);
    if t.len() == 0 || !identity_before(x, t.last()) {
        assert forall|i: int, j: int| 0 <= i < j < r.len() implies identity_before(
            #[trigger] r[i],
            #[trigger] r[j],
        ) by {
            if j == t.len() {
                let last = t[t.len() - 1];
                lemma_identity_order(x, last);
                assert(!same_identity(x, last));
                if i < t.len() - 1 {
                    assert(identity_before(t[i], last));
                    lemma_identity_transitive(t[i], last, x);
                }
            }
        }
        assert forall|i: int| 0 <= i < r.len() implies (#[trigger] r[i] == x || t.contains(r[i])) by {
            if i < t.len() {
                assert(r[i] == t[i]);
            }
        }
    } else {
        let init = t.drop_last();
        let last = t.last();
        assert forall|i: int, j: int| 0 <= i < j < init.len() implies identity_before(
            #[trigger] init[i],
            #[trigger] init[j],
        ) by {
            assert(identity_before(t[i], t[j]));
        }
        assert forall|y: int| 0 <= y < init.len() implies !same_identity(x, #[trigger] init[y]) by {
            assert(!same_identity(x, t[y]));
        }
        lemma_with_entry_ascends(init, x);
        let u = with_entry(init, x);
        assert(r == u.push(last));
        assert forall|i: int, j: int| 0 <= i < j < r.len() implies identity_before(
            #[trigger] r[i],
            #[trigger] r[j],
        ) by {
            if j == u.len() {
                assert(u[i] == x || init.contains(u[i]));
                if u[i] != x {
                    let k = choose|k: int| 0 <= k < init.len() && init[k] == u[i];
                    assert(identity_before(t[k], t[t.len() - 1]));
                }
            } else {
                assert(identity_before(u[i], u[j]));
            }
        }
        assert forall|i: int| 0 <= i < r.len() implies (#[trigger] r[i] == x || t.contains(r[i])) by {
            if i < u.len() {
                assert(u[i] == x || init.contains(u[i]));
                if u[i] != x {
                    let k = choose|k: int| 0 <= k < init.len() && init[k] == u[i];
                    assert(t[k] == r[i]);
                }
            } else {
                assert(t[t.len() - 1] == r[i]);
            }
        }
    }
}

/// Arranging entries of distinct identities makes their identities ascend.
pub proof fn law_arranged_identities_ascend(s: Seq<ConfigEntry>)
    requires
        identities_distinct(s),
    ensures
        identities_ascend(arranged(s)),
        forall|i: int| 0 <= i < arranged(s).len() ==> s.contains(#[trigger] arranged(s)[i]),
    decreases s.len(),
{
    if s.len() > 0 {
        let init = s.drop_last();
        let x = s.last();
        assert forall|i: int, j: int| 0 <= i < j < init.len() implies !same_identity(
            #[trigger] init[i],
            #[trigger] init[j],
        ) by {
            assert(!same_identity(s[i], s[j]));
        }
        law_arranged_identities_ascend(init);
        let t = arranged(init);
        assert forall|y: int| 0 <= y < t.len() implies !same_identity(x, #[trigger] t[y]) by {
            let k = choose|k: int| 0 <= k < init.len() && init[k] == t[y];
            assert(!same_identity(s[k], s[s.len() - 1]));
        }
        lemma_with_entry_ascends(t, x);
        let r = arranged(s);
        assert forall|i: int| 0 <= i < r.len() implies s.contains(#[trigger] r[i]) by {
            if r[i] == x {
                assert(s[s.len() - 1] == x);
            } else {
                let y = choose|y: int| 0 <= y < t.len() && t[y] == r[i];
                let k = choose|k: int| 0 <= k < init.len() && init[k] == t[y];
                assert(s[k] == r[i]);
            }
        }
    }
}

proof fn lemma_ascending_unique(a: Seq<ConfigEntry>, b: Seq<ConfigEntry>)
    requires
        identities_ascend(a),
        identities_ascend(b),
        a.to_multiset() == b.to_multiset(),
    ensures
        a == b,
    decreases a.len(),
{
    a.to_multiset_ensures();
    b.to_multiset_ensures();
    assert(a.len() == b.len());
    if a.len() == 0 {
        assert(a =~= b);
    } else {
        let n = a.len() - 1;
        let x = a[n];
        let y = b[n];
        assert(a.contains(x) && b.contains(y));
        assert(a.to_multiset().count(x) > 0 && b.to_multiset().count(y) > 0);
        assert(b.to_multiset().count(x) > 0 && a.to_multiset().count(y) > 0);
        assert(b.contains(x) && a.contains(y));
        let k = choose|k: int| 0 <= k < b.len() && b[k] == x;
        let m = choose|m: int| 0 <= m < a.len() && a[m] == y;
        if k < n {
            assert(identity_before(b[k], b[n]));
            lemma_identity_order(x, y);
            if m < n {
                assert(identity_before(a[m], a[n]));
            }
        }
        assert(x == y);
        let a2 = a.drop_last();
        let b2 = b.drop_last();
        assert(a.remove(n) =~= a2);
        assert(b.remove(n) =~= b2);
        assert forall|i: int, j: int| 0 <= i < j < a2.len() implies identity_before(
            #[trigger] a2[i],
            #[trigger] a2[j],
        ) by {
            assert(identity_before(a[i], a[j]));
        }
        assert forall|i: int, j: int| 0 <= i < j < b2.len() implies identity_before(
            #[trigger] b2[i],
            #[trigger] b2[j],
        ) by {
            assert(identity_before(b[i], b[j]));
        }
        lemma_ascending_unique(a2, b2);
        assert(a =~= a2.push(x));
        assert(b =~= b2.push(x));
    }
}

/// A baseline does not depend on the order in which its entries come in, as long as no identity
/// occurs twice: neither its entries nor its digest do.
pub proof fn law_baseline_ignores_the_order(
    a: Seq<ConfigEntry>,
    b: Seq<ConfigEntry>,
    version: u64,
    stage: DeploymentStage,
    generated_at_epoch: u64,
)
    requires
        a.to_multiset() == b.to_multiset(),
        identities_distinct(a),
    ensures
        arranged(a) == arranged(b),
        baseline_digest(version, stage, generated_at_epoch, arranged(a)) == baseline_digest(
            version,
            stage,
            generated_at_epoch,
            arranged(b),
        ),
{
    let id = if a.len() > 0 {
        a[0]
    } else {
        b[0]
    };
    law_arranging_is_a_stable_sort(a, id);
    law_arranging_is_a_stable_sort(b, id);
    law_arranged_identities_ascend(a);
    lemma_distinct_by_multiset(a, b);
    law_arranged_identities_ascend(b);
    lemma_ascending_unique(arranged(a), arranged(b));
}

/// Whether identities are distinct does not depend on the order.
proof fn lemma_distinct_by_multiset(a: Seq<ConfigEntry>, b: Seq<ConfigEntry>)
    requires
        a.to_multiset() == b.to_multiset(),
        identities_distinct(a),
    ensures
        identities_distinct(b),
    decreases b.len(),
{
    a.to_multiset_ensures();
    b.to_multiset_ensures();
    assert(a.len() == b.len());
    if b.len() > 0 {
        let n = b.len() - 1;
        let x = b[n];
        assert(b.contains(x));
        assert(b.to_multiset().count(x) > 0);
        assert(a.to_multiset().count(x) > 0);
        assert(a.contains(x));
        let k = choose|k: int| 0 <= k < a.len() && a[k] == x;
        let a2 = a.remove(k);
        let b2 = b.drop_last();
        assert(b.remove(n) =~= b2);
        assert(a2.to_multiset() =~= a.to_multiset().remove(x));
        assert(b2.to_multiset() =~= b.to_multiset().remove(x));
        assert forall|i: int, j: int| 0 <= i < j < a2.len() implies !same_identity(
            #[trigger] a2[i],
            #[trigger] a2[j],
        ) by {
            let i2 = if i < k {
                i
            } else {
                i + 1
            };
            let j2 = if j < k {
                j
            } else {
                j + 1
            };
            assert(!same_identity(a[i2], a[j2]));
        }
        lemma_distinct_by_multiset(a2, b2);
        a2.to_multiset_ensures();
        b2.to_multiset_ensures();
        assert forall|i: int, j: int| 0 <= i < j < b.len() implies !same_identity(
            #[trigger] b[i],
            #[trigger] b[j],
        ) by {
            if j < n {
                assert(!same_identity(b2[i], b2[j]));
            } else {
                assert(b2.contains(b2[i]));
                assert(b2.to_multiset().count(b2[i]) > 0);
                assert(a2.to_multiset().count(b2[i]) > 0);
                assert(a2.contains(b2[i]));
                let q = choose|q: int| 0 <= q < a2.len() && a2[q] == b2[i];
                let p = if q < k {
                    q
                } else {
                    q + 1
                };
                assert(a[p] == b[i]);
                if p < k {
                    assert(!same_identity(a[p], a[k]));
                } else {
                    assert(!same_identity(a[k], a[p]));
                }
            }
        }
    }
}

/// A configuration does not drift from itself.
pub proof fn law_no_drift_from_itself(b: Seq<ConfigEntry>, i: int)
    requires
        0 <= i <= b.len(),
    ensures
        drift_from(b, b, i, i) == Seq::<DriftRecord>::empty(),
    decreases b.len() - i,
{
    if i < b.len() {
        lemma_identity_order(b[i], b[i]);
        law_no_drift_from_itself(b, i + 1);
        assert(drift_from(b, b, i, i) =~= Seq::<DriftRecord>::empty());
    }
}

/// Compares an approved baseline with a runtime snapshot.
pub struct ConfigAuditor;

impl ConfigAuditor {
    /// Reports the drift of a snapshot from a baseline: how much there is, how much of it is
    /// critical, and the first records of it.
    pub fn audit(baseline: &ConfigBaseline, snapshot: &RuntimeSnapshot) -> (r: AuditReport)
        requires
            drift(baseline.entries@, snapshot.entries@).len() <= u32::MAX,
        ensures
            r.baseline_version == baseline.version,
            r.stage == baseline.stage,
            r.observed_at_epoch == snapshot.observed_at_epoch,
            r.baseline_digest == baseline.digest,
            r.drift_count == drift(baseline.entries@, snapshot.entries@).len(),
            r.critical_drift_count == critical_count(drift(baseline.entries@, snapshot.entries@)),
            r.records@ == reported(drift(baseline.entries@, snapshot.entries@)),
    {
        let ghost b = baseline.entries@;
        let ghost s = snapshot.entries@;
        let ghost mut found: Seq<DriftRecord> = Seq::empty();
        let mut i: usize = 0;
        let mut j: usize = 0;
        let mut records: Vec<DriftRecord> = Vec::new();
        let mut drift_count: u32 = 0;
        let mut critical_drift_count: u32 = 0;
        proof {
            assert(drift(b, s) =~= found + drift_from(b, s, 0, 0));
        }
        while i < baseline.entries.len() || j < snapshot.entries.len()
            invariant
                b == baseline.entries@,
                s == snapshot.entries@,
                i <= b.len(),
                j <= s.len(),
                drift(b, s).len() <= u32::MAX,
                drift(b, s) == found + drift_from(b, s, i as int, j as int),
                drift_count == found.len(),
                critical_drift_count == critical_count(found),
                critical_drift_count <= drift_count,
                records@ == reported(found),
            decreases b.len() - i + (s.len() - j),
        {
            let ghost rest = drift_from(b, s, i as int, j as int);
            let expected: Option<&ConfigEntry> = if i < baseline.entries.len() {
                Some(&baseline.entries[i])
            } else {
                None
            };
            let actual: Option<&ConfigEntry> = if j < snapshot.entries.len() {
                Some(&snapshot.entries[j])
            } else {
                None
            };
            let ghost i0 = i as int;
            let ghost j0 = j as int;
            let record: Option<DriftRecord> = match (expected, actual) {
                (Some(expected), Some(actual)) => {
                    proof {
                        lemma_identity_order(*expected, *actual);
                    }
                    if expected.identity_precedes(actual) {
                        i = i + 1;
                        Some(record_from(expected, DriftKind::Missing, expected.severity))
                    } else if actual.identity_precedes(expected) {
                        j = j + 1;
                        Some(record_from(actual, DriftKind::Unexpected, actual.severity))
                    } else {
                        i = i + 1;
                        j = j + 1;
                        compare_entries(expected, actual)
                    }
                },
                (Some(expected), None) => {
                    i = i + 1;
                    Some(record_from(expected, DriftKind::Missing, expected.severity))
                },
                (None, Some(actual)) => {
                    j = j + 1;
                    Some(record_from(actual, DriftKind::Unexpected, actual.severity))
                },
                (None, None) => None,
            };
            proof {
                let after = drift_from(b, s, i as int, j as int);
                if record is Some {
                    let d = record->0;
                    assert(rest =~= seq![d] + after);
                    assert(found + rest =~= found.push(d) + after);
                    assert(found.push(d).drop_last() =~= found);
                } else {
                    assert(rest =~= after);
                }
            }
            if let Some(record) = record {
                let ghost d = record;
                drift_count = drift_count + 1;
                if record.severity == ConfigSeverity::Critical {
                    critical_drift_count = critical_drift_count + 1;
                }
                if records.len() < MAX_DRIFT_RECORDS {
                    records.push(record);
                }
                proof {
                    assert(records@ =~= reported(found.push(d)));
                    found = found.push(d);
                }
            }
        }
        proof {
            assert(drift(b, s) =~= found);
        }
        AuditReport {
            baseline_version: baseline.version,
            stage: baseline.stage,
            observed_at_epoch: snapshot.observed_at_epoch,
            baseline_digest: baseline.digest,
            drift_count,
            critical_drift_count,
            records,
        }
    }
}

/// How an observed entry differs from the expected one of the same identity.
fn compare_entries(expected: &ConfigEntry, actual: &ConfigEntry) -> (r: Option<DriftRecord>)
    ensures
        r == change_of(*expected, *actual),
{
    let severity: ConfigSeverity = if severity_number(expected.severity) >= severity_number(
        actual.severity,
    ) {
        expected.severity
    } else {
        actual.severity
    };
    if !arrays_equal(&expected.value_hash, &actual.value_hash) {
        Some(record_from(expected, DriftKind::ValueChanged, severity))
    } else if expected.severity != actual.severity {
        Some(record_from(expected, DriftKind::SeverityChanged, severity))
    } else {
        None
    }
}

fn record_from(entry: &ConfigEntry, kind: DriftKind, severity: ConfigSeverity) -> (r: DriftRecord)
    ensures
        r == drift_record(*entry, kind, severity),
{
    DriftRecord { service: entry.service.clone(), key: entry.key.clone(), kind, severity }
}

fn severity_number(s: ConfigSeverity) -> (r: u8)
    ensures
        r == severity_code(s),
{
    match s {
        ConfigSeverity::Informational => 0,
        ConfigSeverity::Warning => 1,
        ConfigSeverity::Critical => 2,
    }
}

fn stage_number(s: DeploymentStage) -> (r: u8)
    ensures
        r == stage_code(s),
{
    match s {
        DeploymentStage::Development => 0,
        DeploymentStage::Canary => 1,
        DeploymentStage::Blue => 2,
        DeploymentStage::Green => 3,
        DeploymentStage::Production => 4,
    }
}

fn digest_entries(
    version: u64,
    stage: DeploymentStage,
    generated_at_epoch: u64,
    entries: &[ConfigEntry],
) -> (r: [u8; 32])
    ensures
        r@ == baseline_digest(version, stage, generated_at_epoch, entries@),
{
    let mut bytes: Vec<u8> = to_vec("verinode-config-baseline-v1".as_bytes());
    append(&mut bytes, u64_to_be(version).as_slice());
    bytes.push(stage_number(stage));
    append(&mut bytes, u64_to_be(generated_at_epoch).as_slice());
    let ghost head = bytes@;
    let mut i: usize = 0;
    proof {
        assert(entries@.take(0) =~= Seq::<ConfigEntry>::empty());
        assert(bytes@ =~= head + entries_bytes(entries@.take(0)));
    }
    while i < entries.len()
        invariant
            i <= entries@.len(),
            bytes@ == head + entries_bytes(entries@.take(i as int)),
        decreases entries@.len() - i,
    {
        let ghost before = bytes@;
        append(&mut bytes, entries[i].service.as_str().as_bytes());
        bytes.push(0);
        append(&mut bytes, entries[i].key.as_str().as_bytes());
        bytes.push(0);
        append(&mut bytes, entries[i].value_hash.as_slice());
        bytes.push(severity_number(entries[i].severity));
        proof {
            assert(entries@.take(i + 1).drop_last() =~= entries@.take(i as int));
            assert(entries@.take(i + 1).last() == entries@[i as int]);
            assert(bytes@ =~= before + entry_bytes(entries@[i as int]));
            assert(bytes@ =~= head + entries_bytes(entries@.take(i + 1)));
        }
        i = i + 1;
    }
    proof {
        assert(entries@.take(i as int) =~= entries@);
        assert(bytes@ =~= vstd::utf8::encode_utf8("verinode-config-baseline-v1"@) + be_digits(
            version as nat,
            8,
        ) + seq![stage_code(stage)] + be_digits(generated_at_epoch as nat, 8) + entries_bytes(
            entries@,
        ));
    }
    sha256(bytes.as_slice())
}

/// Of two severities the graver one counts: a critical one before a warning, and a warning before
/// information.
pub proof fn law_graver_severity_counts(a: ConfigSeverity, b: ConfigSeverity)
    ensures
        graver(a, b) == ConfigSeverity::Critical <==> a == ConfigSeverity::Critical || b
            == ConfigSeverity::Critical,
        graver(a, b) == ConfigSeverity::Informational <==> a == ConfigSeverity::Informational && b
            == ConfigSeverity::Informational,
        graver(a, b) == graver(b, a),
        graver(a, b) == a || graver(a, b) == b,
{
}

/// Two entries of the same identity differ where their values do, or else their severities do; the
/// record names the expected entry with the graver severity of both.
pub proof fn law_change_by_value_then_severity(expected: ConfigEntry, actual: ConfigEntry)
    ensures
        ({
            let d = change_of(expected, actual);
            let value = expected.value_hash != actual.value_hash;
            let severity = expected.severity != actual.severity;
            &&& d is None <==> !value && !severity
            &&& d matches Some(r) ==> {
                &&& r.kind is ValueChanged <==> value
                &&& r.kind is SeverityChanged <==> !value
                &&& r.service == expected.service
                &&& r.key == expected.key
                &&& r.severity == graver(expected.severity, actual.severity)
            }
        }),
{
}

/// Critical records are counted once each, and the first 64 records are reported.
pub proof fn law_records_are_counted_and_capped(records: Seq<DriftRecord>, d: DriftRecord, i: int)
    ensures
        critical_count(Seq::<DriftRecord>::empty()) == 0,
        critical_count(records.push(d)) == critical_count(records) + (if d.severity
            == ConfigSeverity::Critical {
            1nat
        } else {
            0nat
        }),
        records.len() <= 64 ==> reported(records) == records,
        records.len() > 64 ==> reported(records).len() == 64,
        0 <= i < reported(records).len() ==> reported(records)[i] == records[i],
{
    assert(records.push(d).drop_last() =~= records);
}

/// What is hashed for a baseline: its name, the version, the stage and the epoch, numbers in eight
/// bytes with the most significant first, and then for each entry its service, its key, the digest
/// of its value and its severity, both texts ended by a zero.
pub proof fn law_baseline_digest_layout(
    version: u64,
    stage: DeploymentStage,
    generated_at_epoch: u64,
    entries: Seq<ConfigEntry>,
    e: ConfigEntry,
    version_bytes: Seq<u8>,
    epoch_bytes: Seq<u8>,
)
    requires
        version_bytes.len() == 8,
        be64_at(version_bytes, 0) == version,
        epoch_bytes.len() == 8,
        be64_at(epoch_bytes, 0) == generated_at_epoch,
    ensures
        entries_bytes(Seq::<ConfigEntry>::empty()) == Seq::<u8>::empty(),
        entries_bytes(entries.push(e)) == entries_bytes(entries) + (vstd::utf8::encode_utf8(
            e.service@,
        ) + seq![0u8] + vstd::utf8::encode_utf8(e.key@) + seq![0u8] + e.value_hash@ + seq![
            (match e.severity {
                ConfigSeverity::Informational => 0u8,
                ConfigSeverity::Warning => 1u8,
                ConfigSeverity::Critical => 2u8,
            }),
        ]),
        baseline_digest(version, stage, generated_at_epoch, entries) == sha256_digest(
            vstd::utf8::encode_utf8("verinode-config-baseline-v1"@) + version_bytes + seq![
                (match stage {
                    DeploymentStage::Development => 0u8,
                    DeploymentStage::Canary => 1u8,
                    DeploymentStage::Blue => 2u8,
                    DeploymentStage::Green => 3u8,
                    DeploymentStage::Production => 4u8,
                }),
            ] + epoch_bytes + entries_bytes(entries),
        ),
{
    assert(entries.push(e).drop_last() =~= entries);
    law_be_value_of_eight_bytes(version_bytes, 0);
    law_be_value_of_eight_bytes(epoch_bytes, 0);
    assert(version_bytes.subrange(0, 8) =~= version_bytes);
    assert(epoch_bytes.subrange(0, 8) =~= epoch_bytes);
    lemma_be_digits_of_value(version_bytes);
    lemma_be_digits_of_value(epoch_bytes);
}

/// Records are ordered by service and then by key, as texts: no two stand before each other, and
/// two of different identity always have an order.
pub proof fn law_records_have_one_order(a: DriftRecord, b: DriftRecord)
    ensures
        !(record_before(a, b) && record_before(b, a)),
        a.service@ == b.service@ ==> (record_before(a, b) <==> text_before(a.key@, b.key@)),
        a.service@ != b.service@ ==> (record_before(a, b) <==> text_before(
            a.service@,
            b.service@,
        )),
        a.service@ == b.service@ && a.key@ == b.key@ || record_before(a, b) || record_before(b, a),
{
    let x = ConfigEntry {
        service: a.service,
        key: a.key,
        value_hash: arbitrary(),
        severity: a.severity,
    };
    let y = ConfigEntry {
        service: b.service,
        key: b.key,
        value_hash: arbitrary(),
        severity: b.severity,
    };
    lemma_identity_order(x, y);
    lemma_identity_order(x, x);
    lemma_encoding_injective(a.service@, b.service@);
    if a.service@ == b.service@ {
        lemma_bytes_before_irreflexive(vstd::utf8::encode_utf8(a.service@));
    }
}

} // verus!
