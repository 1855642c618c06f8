//! Versioned database migration coordinator with rollback support.
//!
//! The coordinator is storage-agnostic so every service can plug in its own persistence adapter
//! while sharing the same ordering, rollback, and audit semantics.

use vstd::prelude::*;

use crate::seqs::lemma_map_values_push;

verus! {

/// Monotonically increasing schema version.
pub type MigrationVersion = u64;

/// Current schema state persisted by a service.
#[derive(Clone, Debug, PartialEq, Eq)]
pub struct SchemaState {
    /// Applied schema version. Version `0` means a fresh, un-migrated store.
    pub version: MigrationVersion,
    /// Ordered history of successfully applied migration versions.
    pub applied_versions: Vec<MigrationVersion>,
}

/// What a schema state says.
pub struct SchemaModel {
    pub version: MigrationVersion,
    pub applied_versions: Seq<MigrationVersion>,
}

impl View for SchemaState {
    type V = SchemaModel;

    open spec fn view(&self) -> SchemaModel {
        SchemaModel { version: self.version, applied_versions: self.applied_versions@ }
    }
}

impl SchemaState {
    /// Create a new state at version zero.
    pub fn new() -> (r: Self)
        ensures
            r@ == (SchemaModel { version: 0, applied_versions: Seq::empty() }),
    {
        SchemaState { version: 0, applied_versions: Vec::new() }
    }
}

impl Default for SchemaState {
    fn default() -> (r: Self)
        ensures
            r@ == (SchemaModel { version: 0, applied_versions: Seq::empty() }),
    {
        Self::new()
    }
}

/// Execution record suitable for logs, metrics, alerts, and runbooks.
#[derive(Clone, Debug, PartialEq, Eq)]
pub struct MigrationEvent {
    pub version: MigrationVersion,
    pub name: &'static str,
    pub direction: MigrationDirection,
}

/// What an execution record says.
pub struct EventModel {
    pub version: MigrationVersion,
    pub name: Seq<char>,
    pub direction: MigrationDirection,
}

impl View for MigrationEvent {
    type V = EventModel;

    open spec fn view(&self) -> EventModel {
        EventModel { version: self.version, name: self.name@, direction: self.direction }
    }
}

/// Direction of a schema transition.
#[derive(Clone, Copy, Debug, PartialEq, Eq)]
pub enum MigrationDirection {
    Up,
    Down,
}

/// Lightweight metrics snapshot exported by the coordinator.
#[derive(Clone, Debug, PartialEq, Eq)]
pub struct MigrationMetrics {
    pub current_version: MigrationVersion,
    pub target_version: MigrationVersion,
    pub pending_migrations: usize,
    pub rollback_available: bool,
}

/// Error returned for invalid plans or migration execution failures.
#[derive(Clone, Debug, PartialEq, Eq)]
pub enum MigrationError {
    DuplicateVersion(MigrationVersion),
    NonContiguousVersion { expected: MigrationVersion, found: MigrationVersion },
    UnknownTarget(MigrationVersion),
    RollbackUnavailable(MigrationVersion),
    ApplyFailed { version: MigrationVersion, reason: String },
    RollbackFailed { version: MigrationVersion, reason: String },
}

/// A reversible database migration.
///
/// A migration has one version and one name. What it does to the database, and whether it
/// succeeds, is its own: `up_allows` and `down_allows` say which outcomes it may have.
pub trait Migration<DB> {
    /// The version of the migration; a migration that does not say has one that is not known.
    open spec fn version_of(&self) -> MigrationVersion {
        arbitrary::<spec_fn(&Self) -> MigrationVersion>()(self)
    }

    /// The name of the migration; a migration that does not say has one that is not known.
    open spec fn name_of(&self) -> &'static str {
        arbitrary::<spec_fn(&Self) -> &'static str>()(self)
    }

    /// Whether applying the migration to one database may leave another, with a result; nothing
    /// is known of a migration that does not say.
    open spec fn up_allows(&self, before: DB, after: DB, r: Result<(), String>) -> bool {
        arbitrary::<spec_fn(&Self, MigrationDirection, DB, DB, Result<(), String>) -> bool>()(
            self,
            MigrationDirection::Up,
            before,
            after,
            r,
        )
    }

    /// Whether undoing the migration on one database may leave another, with a result; nothing is
    /// known of a migration that does not say.
    open spec fn down_allows(&self, before: DB, after: DB, r: Result<(), String>) -> bool {
        arbitrary::<spec_fn(&Self, MigrationDirection, DB, DB, Result<(), String>) -> bool>()(
            self,
            MigrationDirection::Down,
            before,
            after,
            r,
        )
    }

    /// Version reached after this migration is applied.
    fn version(&self) -> (r: MigrationVersion)
        ensures
            r == self.version_of(),
    ;

    /// Human-readable name for logs and dashboards.
    fn name(&self) -> (r: &'static str)
        ensures
            r == self.name_of(),
    ;

    /// Apply the schema/data change.
    fn up(&self, db: &mut DB) -> (r: Result<(), String>)
        ensures
            self.up_allows(*old(db), *final(db), r),
    ;

    /// Undo the schema/data change.
    fn down(&self, db: &mut DB) -> (r: Result<(), String>)
        ensures
            self.down_allows(*old(db), *final(db), r),
    ;
}

/// A step of a plan: the version and the name that a migration has given, and its place in the
/// list of migrations.
#[derive(Clone, Copy, Debug, PartialEq, Eq)]
pub struct MigrationStep {
    pub version: MigrationVersion,
    pub name: &'static str,
    pub place: usize,
}

/// Coordinates migration ordering, version persistence, rollback, and events.
#[verifier::reject_recursive_types(DB)]
pub struct MigrationManager<DB> {
    migrations: Vec<Box<dyn Migration<DB>>>,
    steps: Vec<MigrationStep>,
    events: Vec<MigrationEvent>,
}

/// The versions of some steps.
pub open spec fn version_list(ms: Seq<MigrationStep>) -> Seq<MigrationVersion> {
    Seq::new(ms.len(), |i: int| ms[i].version)
}

/// The steps of some migrations: what each answers, and its place.
pub open spec fn steps_of<DB>(ms: Seq<Box<dyn Migration<DB>>>) -> Seq<MigrationStep> {
    Seq::new(
        ms.len(),
        |i: int|
            MigrationStep { version: ms[i].version_of(), name: ms[i].name_of(), place: i as usize },
    )
}

/// Ascending order.
pub open spec fn ascending_order() -> spec_fn(u64, u64) -> bool {
    |a: u64, b: u64| a <= b
}

/// The versions in ascending order.
pub open spec fn sorted_versions(vs: Seq<MigrationVersion>) -> Seq<MigrationVersion> {
    vs.sort_by(ascending_order())
}

/// The first `n` of some ascending versions count up from one.
pub open spec fn counts_up(vs: Seq<MigrationVersion>, n: int) -> bool {
    forall|i: int| 0 <= i < n ==> #[trigger] vs[i] == i + 1
}

/// What is wrong at place `k` of some ascending versions, the ones before counting up from one: a
/// version that repeats the one before (or is zero), or one that leaves a gap.
pub open spec fn plan_error(vs: Seq<MigrationVersion>, k: int) -> MigrationError {
    if vs[k] == k {
        MigrationError::DuplicateVersion(vs[k])
    } else {
        MigrationError::NonContiguousVersion { expected: (k + 1) as u64, found: vs[k] }
    }
}

/// The state after `k` more versions have been applied.
pub open spec fn applied(s: SchemaModel, k: nat) -> SchemaModel {
    SchemaModel {
        version: (s.version + k) as u64,
        applied_versions: s.applied_versions + Seq::new(k, |i: int| (s.version + i + 1) as u64),
    }
}

/// The state after the latest `k` versions have been undone.
pub open spec fn undone(s: SchemaModel, k: nat) -> SchemaModel {
    SchemaModel {
        version: (s.version - k) as u64,
        applied_versions: if k <= s.applied_versions.len() {
            s.applied_versions.take(s.applied_versions.len() - k)
        } else {
            Seq::empty()
        },
    }
}

/// The history of the state is that of its version: every version from one on, once.
pub open spec fn schema_ok(s: SchemaModel) -> bool {
    s.applied_versions == Seq::new(s.version as nat, |i: int| (i + 1) as u64)
}

/// Undoing as many versions as were applied gives the state back.
pub proof fn law_rollback_undoes_migration(s: SchemaModel, k: nat)
    requires
        s.version + k <= u64::MAX,
    ensures
        undone(applied(s, k), k) == s,
{
    let t = undone(applied(s, k), k);
    assert(t.applied_versions =~= s.applied_versions);
}

/// Applying and undoing keep the history in step with the version.
pub proof fn law_history_in_step(s: SchemaModel, k: nat)
    requires
        schema_ok(s),
    ensures
        s.version + k <= u64::MAX ==> schema_ok(applied(s, k)),
        k <= s.version ==> schema_ok(undone(s, k)),
{
    if s.version + k <= u64::MAX {
        let t = applied(s, k);
        assert(t.applied_versions =~= Seq::new(t.version as nat, |i: int| (i + 1) as u64));
    }
    if k <= s.version {
        let t = undone(s, k);
        assert(t.applied_versions =~= Seq::new(t.version as nat, |i: int| (i + 1) as u64));
    }
}

proof fn lemma_moved_multiset<A>(s: Seq<A>, from: int, to: int)
    requires
        0 <= to <= from < s.len(),
    ensures
        s.remove(from).insert(to, s[from]).to_multiset() == s.to_multiset(),
{
    vstd::seq_lib::to_multiset_remove(s, from);
    vstd::seq_lib::to_multiset_insert(s.remove(from), to, s[from]);
    s.to_multiset_ensures();
    assert(s.contains(s[from]));
    assert(s.remove(from).insert(to, s[from]).to_multiset() =~= s.to_multiset());
}

/// Sorts steps by version.
fn sort_steps(ms: &mut Vec<MigrationStep>)
    ensures
        final(ms)@.to_multiset() == old(ms)@.to_multiset(),
        version_list(final(ms)@) == sorted_versions(version_list(old(ms)@)),
        final(ms)@.len() == old(ms)@.len(),
{
    let ghost all = version_list(ms@);
    let ghost given = ms@;
    let ghost leq = ascending_order();
    let n: usize = ms.len();
    let mut i: usize = 0;
    while i < n
        invariant
            n == ms@.len(),
            i <= n,
            ms@.to_multiset() == given.to_multiset(),
            version_list(ms@).to_multiset() == all.to_multiset(),
            forall|a: int, b: int|
                0 <= a < b < i ==> #[trigger] version_list(ms@)[a] <= #[trigger] version_list(
                    ms@,
                )[b],
        decreases n - i,
    {
        let ghost vs = version_list(ms@);
        let v: MigrationVersion = ms[i].version;
        assert(vs[i as int] == v);
        let mut k: usize = i;
        let mut searching: bool = k > 0;
        while searching
            invariant
                k <= i,
                i < ms@.len(),
                vs == version_list(ms@),
                searching ==> k > 0,
                !searching && k > 0 ==> vs[k - 1] <= v,
                forall|j: int| k <= j < i ==> v < #[trigger] vs[j],
            decreases
                k + (if searching {
                    1int
                } else {
                    0int
                }),
        {
            let w: MigrationVersion = ms[k - 1].version;
            assert(vs[k - 1] == w);
            if w > v {
                k = k - 1;
                searching = k > 0;
            } else {
                searching = false;
            }
        }
        proof {
            lemma_moved_multiset(vs, i as int, k as int);
            lemma_moved_multiset(ms@, i as int, k as int);
        }
        let step: MigrationStep = ms.remove(i);
        ms.insert(k, step);
        proof {
            let t = version_list(ms@);
            assert(t =~= vs.remove(i as int).insert(k as int, vs[i as int]));
            assert forall|a: int, b: int| 0 <= a < b < i + 1 implies #[trigger] t[a] <= #[trigger] t[b] by {
                let a2 = if a < k {
                    a
                } else if a == k {
                    i as int
                } else {
                    a - 1
                };
                let b2 = if b < k {
                    b
                } else if b == k {
                    i as int
                } else {
                    b - 1
                };
                assert(t[a] == vs[a2]);
                assert(t[b] == vs[b2]);
                if b == k && a < k - 1 {
                    assert(vs[a] <= vs[k - 1]);
                }
            }
        }
        i = i + 1;
    }
    proof {
        let t = version_list(ms@);
        assert forall|a: int, b: int| 0 <= a < b < t.len() implies #[trigger] leq(t[a], t[b]) by {
            assert(t[a] <= t[b]);
        }
        all.lemma_sort_by_ensures(leq);
        vstd::seq_lib::lemma_sorted_unique(t, sorted_versions(all), leq);
    }
}

impl<DB> MigrationManager<DB> {
    /// The steps, by version.
    pub closed spec fn plan(&self) -> Seq<MigrationStep> {
        self.steps@
    }

    /// The migrations, in the order in which they were given.
    pub closed spec fn migrations(&self) -> Seq<Box<dyn Migration<DB>>> {
        self.migrations@
    }

    /// Whether applying the migration of a version to one database may leave another, with a
    /// result.
    pub open spec fn may_apply(
        &self,
        version: int,
        before: DB,
        after: DB,
        r: Result<(), String>,
    ) -> bool {
        self.migrations()[self.plan()[version - 1].place as int].up_allows(before, after, r)
    }

    /// Whether undoing the migration of a version on one database may leave another, with a
    /// result.
    pub open spec fn may_undo(
        &self,
        version: int,
        before: DB,
        after: DB,
        r: Result<(), String>,
    ) -> bool {
        self.migrations()[self.plan()[version - 1].place as int].down_allows(before, after, r)
    }

    /// The audit log.
    pub closed spec fn log(&self) -> Seq<EventModel> {
        self.events@.map_values(|e: MigrationEvent| e@)
    }

    /// The versions count up from one, and every step has its migration, with its version and
    /// its name.
    pub open spec fn wf(&self) -> bool {
        &&& self.plan().len() <= u64::MAX
        &&& forall|i: int|
            0 <= i < self.plan().len() ==> {
                let step = #[trigger] self.plan()[i];
                &&& step.version == i + 1
                &&& step.place < self.migrations().len()
                &&& self.migrations()[step.place as int].version_of() == step.version
                &&& self.migrations()[step.place as int].name_of() == step.name
            }
    }

    /// The event of a transition of a version.
    pub open spec fn event(&self, version: int, direction: MigrationDirection) -> EventModel {
        EventModel {
            version: version as u64,
            name: self.plan()[version - 1].name@,
            direction,
        }
    }

    /// The events of applying `k` versions from `from` on.
    pub open spec fn up_events(&self, from: MigrationVersion, k: nat) -> Seq<EventModel> {
        Seq::new(k, |i: int| self.event(from + i + 1, MigrationDirection::Up))
    }

    /// The events of undoing `k` versions from `from` on.
    pub open spec fn down_events(&self, from: MigrationVersion, k: nat) -> Seq<EventModel> {
        Seq::new(k, |i: int| self.event(from - i, MigrationDirection::Down))
    }

    /// Build a manager from a service's migration list.
    ///
    /// The versions of the migrations, in ascending order, must count up from one.
    pub fn new(migrations: Vec<Box<dyn Migration<DB>>>) -> (r: Result<Self, MigrationError>)
        ensures
            built_from(migrations@, r),
    {
        let n: usize = migrations.len();
        let mut steps: Vec<MigrationStep> = Vec::new();
        let mut i: usize = 0;
        while i < n
            invariant
                i <= n,
                n == migrations@.len(),
                steps@.len() == i,
                forall|j: int| 0 <= j < i ==> #[trigger] steps@[j] == steps_of(migrations@)[j],
            decreases n - i,
        {
            let version: MigrationVersion = migrations[i].version();
            let name: &'static str = migrations[i].name();
            steps.push(MigrationStep { version, name, place: i });
            i = i + 1;
        }
        assert(steps@ =~= steps_of(migrations@));
        Self::from_steps(migrations, steps)
    }

    /// Builds a manager from migrations and their steps.
    fn from_steps(migrations: Vec<Box<dyn Migration<DB>>>, steps: Vec<MigrationStep>) -> (r:
        Result<Self, MigrationError>)
        requires
            steps@ == steps_of(migrations@),
        ensures
            built_from(migrations@, r),
    {
        let ghost given = steps@;
        let ghost all = migrations@;
        let count: usize = migrations.len();
        let mut sorted: Vec<MigrationStep> = steps;
        sort_steps(&mut sorted);
        let ghost vs = version_list(sorted@);
        let n: usize = sorted.len();
        let mut i: usize = 0;
        while i < n
            invariant
                n == sorted@.len(),
                vs == version_list(sorted@),
                given == steps@,
                given == steps_of(all),
                all == migrations@,
                count == all.len(),
                sorted@.to_multiset() == given.to_multiset(),
                vs == sorted_versions(version_list(given)),
                i <= n,
                counts_up(vs, i as int),
            decreases n - i,
        {
            let version: MigrationVersion = sorted[i].version;
            assert(vs[i as int] == version);
            if version == i as u64 {
                assert(plan_error(vs, i as int) == MigrationError::DuplicateVersion(version));
                return Err(MigrationError::DuplicateVersion(version));
            }
            if version != i as u64 + 1 {
                assert(plan_error(vs, i as int) == MigrationError::NonContiguousVersion {
                    expected: (i + 1) as u64,
                    found: version,
                });
                return Err(
                    MigrationError::NonContiguousVersion {
                        expected: i as u64 + 1,
                        found: version,
                    },
                );
            }
            i = i + 1;
        }
        let m = MigrationManager { migrations, steps: sorted, events: Vec::new() };
        proof {
            assert(m.log() =~= Seq::<EventModel>::empty());
            assert forall|j: int| 0 <= j < m.plan().len() implies {
                let step = #[trigger] m.plan()[j];
                &&& step.version == j + 1
                &&& step.place < m.migrations().len()
                &&& m.migrations()[step.place as int].version_of() == step.version
                &&& m.migrations()[step.place as int].name_of() == step.name
            } by {
                let step = m.plan()[j];
                assert(vs[j] == j + 1);
                m.plan().to_multiset_ensures();
                given.to_multiset_ensures();
                assert(m.plan().contains(step));
                assert(m.plan().to_multiset().count(step) > 0);
                assert(given.to_multiset().count(step) > 0);
                assert(given.contains(step));
                let q = choose|q: int| 0 <= q < given.len() && given[q] == step;
                assert(step == steps_of(all)[q]);
                assert(step.place == q);
            }
        }
        Ok(m)
    }

    /// Puts a transition on the audit log.
    fn record(&mut self, version: MigrationVersion, direction: MigrationDirection)
        requires
            old(self).wf(),
            1 <= version <= old(self).plan().len(),
        ensures
            final(self).plan() == old(self).plan(),
            final(self).migrations() == old(self).migrations(),
            final(self).log() == old(self).log().push(old(self).event(version as int, direction)),
    {
        let n: usize = self.steps.len();
        let event: MigrationEvent = MigrationEvent {
            version,
            name: self.steps[(version - 1) as usize].name,
            direction,
        };
        proof {
            lemma_map_values_push(self.events@, event, |e: MigrationEvent| e@);
        }
        self.events.push(event);
    }

    /// Takes in what applying the next version has come to: on success the state advances and the
    /// transition is logged, on failure nothing changes.
    pub fn note_applied(
        &mut self,
        state: &mut SchemaState,
        outcome: Result<(), String>,
    ) -> (r: Result<(), MigrationError>)
        requires
            old(self).wf(),
            old(state).version < old(self).plan().len(),
        ensures
            final(self).wf(),
            final(self).plan() == old(self).plan(),
            final(self).migrations() == old(self).migrations(),
            match outcome {
                Ok(()) => {
                    &&& r == Ok::<(), MigrationError>(())
                    &&& final(state)@ == applied(old(state)@, 1)
                    &&& final(self).log() == old(self).log() + old(self).up_events(
                        old(state).version,
                        1,
                    )
                },
                Err(reason) => {
                    &&& r == Err::<(), _>(
                        MigrationError::ApplyFailed {
                            version: (old(state).version + 1) as u64,
                            reason,
                        },
                    )
                    &&& final(state)@ == old(state)@
                    &&& final(self).log() == old(self).log()
                },
            },
    {
        let version: MigrationVersion = state.version + 1;
        match outcome {
            Ok(()) => {
                state.version = version;
                state.applied_versions.push(version);
                self.record(version, MigrationDirection::Up);
                proof {
                    assert(state@.applied_versions =~= applied(old(state)@, 1).applied_versions);
                    assert(self.log() =~= old(self).log() + old(self).up_events(
                        old(state).version,
                        1,
                    ));
                }
                Ok(())
            },
            Err(reason) => Err(MigrationError::ApplyFailed { version, reason }),
        }
    }

    /// Takes in what undoing the current version has come to: on success the state goes back one
    /// version and the transition is logged, on failure nothing changes.
    pub fn note_undone(
        &mut self,
        state: &mut SchemaState,
        outcome: Result<(), String>,
    ) -> (r: Result<(), MigrationError>)
        requires
            old(self).wf(),
            1 <= old(state).version <= old(self).plan().len(),
        ensures
            final(self).wf(),
            final(self).plan() == old(self).plan(),
            final(self).migrations() == old(self).migrations(),
            match outcome {
                Ok(()) => {
                    &&& r == Ok::<(), MigrationError>(())
                    &&& final(state)@ == undone(old(state)@, 1)
                    &&& final(self).log() == old(self).log() + old(self).down_events(
                        old(state).version,
                        1,
                    )
                },
                Err(reason) => {
                    &&& r == Err::<(), _>(
                        MigrationError::RollbackFailed { version: old(state).version, reason },
                    )
                    &&& final(state)@ == old(state)@
                    &&& final(self).log() == old(self).log()
                },
            },
    {
        let version: MigrationVersion = state.version;
        match outcome {
            Ok(()) => {
                state.applied_versions.pop();
                state.version = version - 1;
                self.record(version, MigrationDirection::Down);
                proof {
                    assert(state@.applied_versions =~= undone(old(state)@, 1).applied_versions);
                    assert(self.log() =~= old(self).log() + old(self).down_events(
                        old(state).version,
                        1,
                    ));
                }
                Ok(())
            },
            Err(reason) => Err(MigrationError::RollbackFailed { version, reason }),
        }
    }

    /// Apply migrations until `target_version` is reached.
    ///
    /// A lower target is reached by rolling back. The migrations decide how far it goes: those up
    /// to the first one that fails are applied, in order.
    pub fn migrate_to(
        &mut self,
        db: &mut DB,
        state: &mut SchemaState,
        target_version: MigrationVersion,
    ) -> (r: Result<(), MigrationError>)
        requires
            old(self).wf(),
        ensures
            final(self).wf(),
            final(self).plan() == old(self).plan(),
            final(self).migrations() == old(self).migrations(),
            target_version > old(self).plan().len() ==> {
                &&& r == Err::<(), _>(MigrationError::UnknownTarget(target_version))
                &&& final(state)@ == old(state)@
                &&& final(self).log() == old(self).log()
                &&& *final(db) == *old(db)
            },
            target_version <= old(self).plan().len() && target_version >= old(state).version
                ==> migrated(
                *old(self),
                *final(self),
                old(state)@,
                final(state)@,
                target_version,
                *old(db),
                *final(db),
                r,
            ),
            target_version <= old(self).plan().len() && target_version < old(state).version
                ==> rolled_back(
                *old(self),
                *final(self),
                old(state)@,
                final(state)@,
                target_version,
                *old(db),
                *final(db),
                r,
            ),
    {
        match self.ensure_target_exists(target_version) {
            Ok(()) => {},
            Err(e) => {
                return Err(e);
            },
        }
        if target_version < state.version {
            return self.rollback_to(db, state, target_version);
        }
        let ghost start = state@;
        let ghost dbs: Seq<DB> = seq![*db];
        proof {
            assert(state@.applied_versions =~= applied(start, 0).applied_versions);
            assert(self.log() =~= old(self).log() + old(self).up_events(start.version, 0));
            assert(applied(start, 0) == state@);
        }
        while state.version < target_version
            invariant
                self.wf(),
                self.plan() == old(self).plan(),
                self.migrations() == old(self).migrations(),
                start == old(state)@,
                target_version <= self.plan().len(),
                start.version <= target_version,
                0 < dbs.len() <= target_version - start.version + 1,
                dbs[0] == *old(db),
                dbs.last() == *db,
                runs_up(*old(self), start.version, dbs),
                state@ == applied(start, (dbs.len() - 1) as nat),
                self.log() == old(self).log() + old(self).up_events(
                    start.version,
                    (dbs.len() - 1) as nat,
                ),
            decreases target_version - state.version,
        {
            let ghost k: nat = (dbs.len() - 1) as nat;
            let n: usize = self.steps.len();
            let place: usize = self.steps[state.version as usize].place;
            let ghost db_before = *db;
            let outcome: Result<(), String> = self.migrations[place].up(db);
            proof {
                assert(self.migrations@[place as int].up_allows(db_before, *db, outcome));
                assert(db_before == dbs[k as int]);
                assert(place == old(self).plan()[start.version + k].place);
                assert(old(self).may_apply(
                    start.version + k + 1,
                    dbs[k as int],
                    *db,
                    outcome,
                ));
            }
            let ghost came = outcome;
            match self.note_applied(state, outcome) {
                Ok(()) => {
                    proof {
                        let more = dbs.push(*db);
                        assert(came is Ok);
                        assert(came->Ok_0 == ());
                        assert(came == Ok::<(), String>(()));
                        assert(more[k as int] == db_before && more[k as int + 1] == *db);
                        assert(state@.applied_versions =~= applied(start, k + 1).applied_versions);
                        assert(self.log() =~= old(self).log() + old(self).up_events(
                            start.version,
                            k + 1,
                        ));
                        assert forall|i: int| 0 <= i < more.len() - 1 implies old(
                            self,
                        ).may_apply(
                            start.version + i + 1,
                            #[trigger] more[i],
                            more[i + 1],
                            Ok(()),
                        ) by {
                            if i < k {
                                assert(more[i] == dbs[i] && more[i + 1] == dbs[i + 1]);
                            }
                        }
                        dbs = more;
                    }
                },
                Err(e) => {
                    proof {
                        assert(migrated_through(
                            *old(self),
                            *self,
                            start,
                            state@,
                            target_version,
                            *old(db),
                            *db,
                            Err(e),
                            dbs,
                        ));
                    }
                    return Err(e);
                },
            }
        }
        proof {
            assert(migrated_through(
                *old(self),
                *self,
                start,
                state@,
                target_version,
                *old(db),
                *db,
                Ok(()),
                dbs,
            ));
        }
        Ok(())
    }

    /// Roll back applied migrations until `target_version` is reached.
    ///
    /// The migrations decide how far it goes: those from the current version down to the first one
    /// that fails are undone, in order.
    pub fn rollback_to(
        &mut self,
        db: &mut DB,
        state: &mut SchemaState,
        target_version: MigrationVersion,
    ) -> (r: Result<(), MigrationError>)
        requires
            old(self).wf(),
        ensures
            final(self).wf(),
            final(self).plan() == old(self).plan(),
            final(self).migrations() == old(self).migrations(),
            target_version > old(self).plan().len() ==> {
                &&& r == Err::<(), _>(MigrationError::UnknownTarget(target_version))
                &&& final(state)@ == old(state)@
                &&& final(self).log() == old(self).log()
                &&& *final(db) == *old(db)
            },
            target_version <= old(self).plan().len() ==> rolled_back(
                *old(self),
                *final(self),
                old(state)@,
                final(state)@,
                target_version,
                *old(db),
                *final(db),
                r,
            ),
    {
        match self.ensure_target_exists(target_version) {
            Ok(()) => {},
            Err(e) => {
                return Err(e);
            },
        }
        let ghost start = state@;
        let ghost dbs: Seq<DB> = seq![*db];
        proof {
            assert(state@.applied_versions =~= undone(start, 0).applied_versions);
            assert(self.log() =~= old(self).log() + old(self).down_events(start.version, 0));
            assert(undone(start, 0) == state@);
        }
        if state.version > target_version && state.version as u128 > self.steps.len() as u128 {
            return Err(MigrationError::RollbackUnavailable(state.version));
        }
        while state.version > target_version
            invariant
                self.wf(),
                self.plan() == old(self).plan(),
                self.migrations() == old(self).migrations(),
                start == old(state)@,
                start.version > target_version ==> start.version <= self.plan().len(),
                target_version <= self.plan().len(),
                dbs.len() > 0,
                dbs.len() == 1 || dbs.len() - 1 <= start.version - target_version,
                dbs[0] == *old(db),
                dbs.last() == *db,
                runs_down(*old(self), start.version, dbs),
                state@ == undone(start, (dbs.len() - 1) as nat),
                state@.version == start.version - (dbs.len() - 1),
                self.log() == old(self).log() + old(self).down_events(
                    start.version,
                    (dbs.len() - 1) as nat,
                ),
            decreases state.version,
        {
            let ghost k: nat = (dbs.len() - 1) as nat;
            let n: usize = self.steps.len();
            let place: usize = self.steps[(state.version - 1) as usize].place;
            let ghost db_before = *db;
            let outcome: Result<(), String> = self.migrations[place].down(db);
            proof {
                assert(self.migrations@[place as int].down_allows(db_before, *db, outcome));
                assert(db_before == dbs[k as int]);
                assert(place == old(self).plan()[start.version - k - 1].place);
                assert(old(self).may_undo(
                    start.version - k,
                    dbs[k as int],
                    *db,
                    outcome,
                ));
            }
            let ghost came = outcome;
            match self.note_undone(state, outcome) {
                Ok(()) => {
                    proof {
                        let more = dbs.push(*db);
                        assert(came is Ok);
                        assert(came->Ok_0 == ());
                        assert(came == Ok::<(), String>(()));
                        assert(more[k as int] == db_before && more[k as int + 1] == *db);
                        assert(state@.applied_versions =~= undone(start, k + 1).applied_versions);
                        assert(self.log() =~= old(self).log() + old(self).down_events(
                            start.version,
                            k + 1,
                        ));
                        assert forall|i: int| 0 <= i < more.len() - 1 implies old(
                            self,
                        ).may_undo(
                            start.version - i,
                            #[trigger] more[i],
                            more[i + 1],
                            Ok(()),
                        ) by {
                            if i < k {
                                assert(more[i] == dbs[i] && more[i + 1] == dbs[i + 1]);
                            }
                        }
                        dbs = more;
                    }
                },
                Err(e) => {
                    proof {
                        assert(rolled_back_through(
                            *old(self),
                            *self,
                            start,
                            state@,
                            target_version,
                            *old(db),
                            *db,
                            Err(e),
                            dbs,
                        ));
                    }
                    return Err(e);
                },
            }
        }
        proof {
            assert(rolled_back_through(
                *old(self),
                *self,
                start,
                state@,
                target_version,
                *old(db),
                *db,
                Ok(()),
                dbs,
            ));
        }
        Ok(())
    }

    /// Latest migration version known by this manager.
    pub fn latest_version(&self) -> (r: MigrationVersion)
        requires
            self.wf(),
        ensures
            r == self.plan().len(),
    {
        let n: usize = self.steps.len();
        if n == 0 {
            0
        } else {
            assert(self.plan()[n - 1].version == n);
            self.steps[n - 1].version
        }
    }

    /// Export current observability fields for dashboards and alerts.
    pub fn metrics(&self, state: &SchemaState) -> (r: MigrationMetrics)
        requires
            self.wf(),
        ensures
            r.current_version == state.version,
            r.target_version == self.plan().len(),
            r.pending_migrations == if self.plan().len() >= state.version {
                self.plan().len() - state.version
            } else {
                0
            },
            r.rollback_available == (state.version > 0),
    {
        let latest: MigrationVersion = self.latest_version();
        let n: usize = self.steps.len();
        MigrationMetrics {
            current_version: state.version,
            target_version: latest,
            pending_migrations: latest.saturating_sub(state.version) as usize,
            rollback_available: state.version > 0,
        }
    }

    /// Audit log of successful migration transitions.
    pub fn events(&self) -> (r: &[MigrationEvent])
        ensures
            r@.map_values(|e: MigrationEvent| e@) == self.log(),
    {
        self.events.as_slice()
    }

    fn ensure_target_exists(&self, target_version: MigrationVersion) -> (r: Result<
        (),
        MigrationError,
    >)
        requires
            self.wf(),
        ensures
            r == if target_version <= self.plan().len() {
                Ok(())
            } else {
                Err(MigrationError::UnknownTarget(target_version))
            },
    {
        if target_version <= self.latest_version() {
            Ok(())
        } else {
            Err(MigrationError::UnknownTarget(target_version))
        }
    }
}

/// What building a manager from its migrations comes to: it succeeds
/// exactly where the versions, in ascending order, count up from one, and otherwise the first
/// version out of place decides the error.
pub open spec fn built_from<DB>(
    migrations: Seq<Box<dyn Migration<DB>>>,
    r: Result<MigrationManager<DB>, MigrationError>,
) -> bool {
    let steps = steps_of(migrations);
    let vs = sorted_versions(version_list(steps));
    &&& r is Ok <==> counts_up(vs, vs.len() as int)
    &&& r matches Ok(m) ==> {
        &&& m.wf()
        &&& m.migrations() == migrations
        &&& m.plan().to_multiset() == steps.to_multiset()
        &&& version_list(m.plan()) == vs
        &&& m.log() == Seq::<EventModel>::empty()
    }
    &&& r matches Err(e) ==> exists|k: int|
        0 <= k < vs.len() && counts_up(vs, k) && vs[k] != k + 1 && e == #[trigger] plan_error(
            vs,
            k,
        )
}

/// Each database of a list comes of the one before by applying the next version after `from`.
pub open spec fn runs_up<DB>(m: MigrationManager<DB>, from: MigrationVersion, dbs: Seq<DB>) -> bool {
    forall|i: int|
        0 <= i < dbs.len() - 1 ==> m.may_apply(
            from + i + 1,
            #[trigger] dbs[i],
            dbs[i + 1],
            Ok(()),
        )
}

/// Each database of a list comes of the one before by undoing the next version from `from` down.
pub open spec fn runs_down<DB>(m: MigrationManager<DB>, from: MigrationVersion, dbs: Seq<DB>) -> bool {
    forall|i: int|
        0 <= i < dbs.len() - 1 ==> m.may_undo(
            from - i,
            #[trigger] dbs[i],
            dbs[i + 1],
            Ok(()),
        )
}

/// What a migration to a known target that is not below the state comes to, given the databases
/// that the successful steps passed through: the versions after that of the state are applied in
/// order, up to the target or to the first one that fails, whose reason is returned.
pub open spec fn migrated_through<DB>(
    before: MigrationManager<DB>,
    after: MigrationManager<DB>,
    s: SchemaModel,
    t: SchemaModel,
    target: MigrationVersion,
    db_before: DB,
    db_after: DB,
    r: Result<(), MigrationError>,
    dbs: Seq<DB>,
) -> bool {
    let k = (dbs.len() - 1) as nat;
    let next = s.version + k + 1;
    &&& dbs.len() > 0
    &&& dbs[0] == db_before
    &&& runs_up(before, s.version, dbs)
    &&& t == applied(s, k)
    &&& after.log() == before.log() + before.up_events(s.version, k)
    &&& match r {
        Ok(()) => k == target - s.version && db_after == dbs[k as int],
        Err(e) => {
            &&& k < target - s.version
            &&& e is ApplyFailed
            &&& e->ApplyFailed_version == next
            &&& before.may_apply(
                next,
                dbs[k as int],
                db_after,
                Err(e->ApplyFailed_reason),
            )
        },
    }
}

/// What a migration to a known target that is not below the state comes to.
pub open spec fn migrated<DB>(
    before: MigrationManager<DB>,
    after: MigrationManager<DB>,
    s: SchemaModel,
    t: SchemaModel,
    target: MigrationVersion,
    db_before: DB,
    db_after: DB,
    r: Result<(), MigrationError>,
) -> bool {
    exists|dbs: Seq<DB>| #[trigger]
        migrated_through(before, after, s, t, target, db_before, db_after, r, dbs)
}

/// What a rollback to a known target comes to where it is possible, given the databases that the
/// successful steps passed through: the versions from that of the state on are undone in
/// descending order, down to the target or to the first one that fails, whose reason is returned.
pub open spec fn rolled_back_through<DB>(
    before: MigrationManager<DB>,
    after: MigrationManager<DB>,
    s: SchemaModel,
    t: SchemaModel,
    target: MigrationVersion,
    db_before: DB,
    db_after: DB,
    r: Result<(), MigrationError>,
    dbs: Seq<DB>,
) -> bool {
    let k = (dbs.len() - 1) as nat;
    &&& dbs.len() > 0
    &&& dbs[0] == db_before
    &&& runs_down(before, s.version, dbs)
    &&& t == undone(s, k)
    &&& after.log() == before.log() + before.down_events(s.version, k)
    &&& match r {
        Ok(()) => {
            &&& k == if s.version > target {
                s.version - target
            } else {
                0
            }
            &&& db_after == dbs[k as int]
        },
        Err(e) => {
            &&& k < s.version - target
            &&& e is RollbackFailed
            &&& e->RollbackFailed_version == s.version - k
            &&& before.may_undo(
                s.version - k,
                dbs[k as int],
                db_after,
                Err(e->RollbackFailed_reason),
            )
        },
    }
}

/// What a rollback to a known target comes to: nothing but an error, where the state is above the
/// target at a version without a migration; otherwise the versions above the target are undone.
pub open spec fn rolled_back<DB>(
    before: MigrationManager<DB>,
    after: MigrationManager<DB>,
    s: SchemaModel,
    t: SchemaModel,
    target: MigrationVersion,
    db_before: DB,
    db_after: DB,
    r: Result<(), MigrationError>,
) -> bool {
    if s.version > target && s.version > before.plan().len() {
        &&& r == Err::<(), _>(MigrationError::RollbackUnavailable(s.version))
        &&& t == s
        &&& after.log() == before.log()
        &&& db_after == db_before
    } else {
        exists|dbs: Seq<DB>| #[trigger]
            rolled_back_through(before, after, s, t, target, db_before, db_after, r, dbs)
    }
}

/// Applying never fails for the versions after `from` up to `to`.
pub open spec fn every_up_succeeds<DB>(m: MigrationManager<DB>, from: int, to: int) -> bool {
    forall|v: int, b: DB, a: DB, r: Result<(), String>|
        from < v <= to && #[trigger] m.may_apply(v, b, a, r) ==> r is Ok
}

/// Undoing never fails for the versions after `from` up to `to`.
pub open spec fn every_down_succeeds<DB>(m: MigrationManager<DB>, from: int, to: int) -> bool {
    forall|v: int, b: DB, a: DB, r: Result<(), String>|
        from < v <= to && #[trigger] m.may_undo(v, b, a, r) ==> r is Ok
}

/// Where no migration on the way fails, a migration reaches its target, and every version on the
/// way is applied and logged once.
pub proof fn law_migration_reaches_its_target<DB>(
    before: MigrationManager<DB>,
    after: MigrationManager<DB>,
    s: SchemaModel,
    t: SchemaModel,
    target: MigrationVersion,
    db_before: DB,
    db_after: DB,
    r: Result<(), MigrationError>,
)
    requires
        s.version <= target,
        migrated(before, after, s, t, target, db_before, db_after, r),
        every_up_succeeds(before, s.version as int, target as int),
    ensures
        r is Ok,
        t == applied(s, (target - s.version) as nat),
        after.log() == before.log() + before.up_events(
            s.version,
            (target - s.version) as nat,
        ),
{
    let dbs = choose|dbs: Seq<DB>| #[trigger]
        migrated_through(before, after, s, t, target, db_before, db_after, r, dbs);
    let k = (dbs.len() - 1) as nat;
    if r is Err {
        let e = r->Err_0;
        assert(before.may_apply(
            s.version + k + 1,
            dbs[k as int],
            db_after,
            Err(e->ApplyFailed_reason),
        ));
    }
}

/// Where no migration on the way fails to be undone, a rollback reaches its target, and every
/// version on the way is undone and logged once.
pub proof fn law_rollback_reaches_its_target<DB>(
    before: MigrationManager<DB>,
    after: MigrationManager<DB>,
    s: SchemaModel,
    t: SchemaModel,
    target: MigrationVersion,
    db_before: DB,
    db_after: DB,
    r: Result<(), MigrationError>,
)
    requires
        target <= s.version <= before.plan().len(),
        rolled_back(before, after, s, t, target, db_before, db_after, r),
        every_down_succeeds(before, target as int, s.version as int),
    ensures
        r is Ok,
        t == undone(s, (s.version - target) as nat),
        after.log() == before.log() + before.down_events(
            s.version,
            (s.version - target) as nat,
        ),
{
    let dbs = choose|dbs: Seq<DB>| #[trigger]
        rolled_back_through(before, after, s, t, target, db_before, db_after, r, dbs);
    let k = (dbs.len() - 1) as nat;
    if r is Err {
        let e = r->Err_0;
        assert(before.may_undo(
            s.version - k,
            dbs[k as int],
            db_after,
            Err(e->RollbackFailed_reason),
        ));
    }
}

/// After a migration that reached its target, a rollback to where it started gives the state back,
/// history included, where no migration on the way fails to be undone.
pub proof fn law_rollback_gives_the_state_back<DB>(
    first: MigrationManager<DB>,
    second: MigrationManager<DB>,
    third: MigrationManager<DB>,
    s: SchemaModel,
    t: SchemaModel,
    u: SchemaModel,
    target: MigrationVersion,
    db_first: DB,
    db_second: DB,
    db_third: DB,
    r: Result<(), MigrationError>,
)
    requires
        s.version <= target <= first.plan().len(),
        second.plan() == first.plan(),
        migrated(first, second, s, t, target, db_first, db_second, Ok(())),
        rolled_back(second, third, t, u, s.version, db_second, db_third, r),
        every_down_succeeds(second, s.version as int, target as int),
    ensures
        r is Ok,
        u == s,
        third.log() == first.log() + first.up_events(s.version, (target - s.version) as nat)
            + second.down_events(target, (target - s.version) as nat),
{
    let k = (target - s.version) as nat;
    assert(t == applied(s, k));
    law_rollback_reaches_its_target(second, third, t, u, s.version, db_second, db_third, r);
    law_rollback_undoes_migration(s, k);
}

/// Each version applied raises the version by one and goes to the end of the list; each one undone
/// lowers the version by one and leaves the list by its end.
pub proof fn law_versions_move_one_at_a_time(s: SchemaModel, k: nat, i: int)
    ensures
        s.version + k <= u64::MAX ==> {
            let t = applied(s, k);
            &&& t.version == s.version + k
            &&& t.applied_versions.len() == s.applied_versions.len() + k
            &&& 0 <= i < s.applied_versions.len() ==> t.applied_versions[i]
                == s.applied_versions[i]
            &&& 0 <= i < k ==> t.applied_versions[s.applied_versions.len() + i] == s.version + i + 1
        },
        k <= s.version && k <= s.applied_versions.len() ==> {
            let t = undone(s, k);
            &&& t.version == s.version - k
            &&& t.applied_versions.len() == s.applied_versions.len() - k
            &&& 0 <= i < s.applied_versions.len() - k ==> t.applied_versions[i]
                == s.applied_versions[i]
        },
{
}

/// The first `n` versions.
pub open spec fn first_versions(n: nat) -> Seq<MigrationVersion> {
    Seq::new(n, |i: int| (i + 1) as u64)
}

/// A plan stands exactly where its versions are those from one up to their number, each once, in
/// whatever order they were given.
pub proof fn law_plan_needs_every_version_once(vs: Seq<MigrationVersion>)
    requires
        vs.len() <= u64::MAX,
    ensures
        counts_up(sorted_versions(vs), sorted_versions(vs).len() as int) <==> vs.to_multiset()
            == first_versions(vs.len()).to_multiset(),
{
    broadcast use vstd::seq_lib::group_to_multiset_ensures;

    let leq = ascending_order();
    let sorted = sorted_versions(vs);
    let target = first_versions(vs.len());
    vs.lemma_sort_by_ensures(leq);
    assert(sorted.len() == vs.len()) by {
        assert(sorted.to_multiset().len() == vs.to_multiset().len());
    }
    if counts_up(sorted, sorted.len() as int) {
        assert(sorted =~= target);
    }
    if vs.to_multiset() == target.to_multiset() {
        vstd::seq_lib::lemma_sorted_unique(sorted, target, leq);
    }
}

/// Where the versions in ascending order first leave the count, a version that was just counted is
/// a duplicate, and any other leaves a gap: the one expected and the one found are reported.
pub proof fn law_plan_fault(vs: Seq<MigrationVersion>, k: int)
    requires
        0 <= k < vs.len() <= u64::MAX,
        counts_up(vs, k),
        vs[k] != k + 1,
    ensures
        vs[k] == k ==> plan_error(vs, k) == MigrationError::DuplicateVersion(vs[k]),
        k > 0 && vs[k] == vs[k - 1] ==> plan_error(vs, k) == MigrationError::DuplicateVersion(
            vs[k],
        ),
        vs[k] != k ==> (plan_error(vs, k) matches MigrationError::NonContiguousVersion {
            expected,
            found,
        } && expected == k + 1 && found == vs[k]),
{
    if k > 0 {
        assert(vs[k - 1] == k);
    }
}

/// A migration that fails stops right before the version that failed, which lies within reach of
/// the target; the versions up to there stay applied and are logged as such, one by one.
pub proof fn law_failed_migration_stops_before_the_fault<DB>(
    before: MigrationManager<DB>,
    after: MigrationManager<DB>,
    s: SchemaModel,
    t: SchemaModel,
    target: MigrationVersion,
    db_before: DB,
    db_after: DB,
    r: Result<(), MigrationError>,
)
    requires
        s.version <= target,
        migrated(before, after, s, t, target, db_before, db_after, r),
    ensures
        r is Ok ==> t.version == target,
        r matches Err(e) ==> {
            &&& e is ApplyFailed
            &&& e->ApplyFailed_version == t.version + 1
            &&& s.version < e->ApplyFailed_version <= target
        },
        s.version <= t.version <= target,
        after.log().len() == before.log().len() + (t.version - s.version),
        forall|i: int|
            0 <= i < before.log().len() ==> #[trigger] after.log()[i] == before.log()[i],
        forall|i: int|
            before.log().len() <= i < after.log().len() ==> (#[trigger] after.log()[i]).version
                == s.version + (i - before.log().len()) + 1 && after.log()[i].direction is Up
                && after.log()[i].name == before.plan()[s.version + (i
                - before.log().len())].name@,
        t.applied_versions.len() == s.applied_versions.len() + (t.version - s.version),
{
    let dbs = choose|dbs: Seq<DB>| #[trigger]
        migrated_through(before, after, s, t, target, db_before, db_after, r, dbs);
    let k = (dbs.len() - 1) as nat;
    law_versions_move_one_at_a_time(s, k, 0);
}

/// A rollback that fails stops at the version that failed, which lies above the target; the
/// versions above it are undone and logged as such, from the highest down.
pub proof fn law_failed_rollback_stops_at_the_fault<DB>(
    before: MigrationManager<DB>,
    after: MigrationManager<DB>,
    s: SchemaModel,
    t: SchemaModel,
    target: MigrationVersion,
    db_before: DB,
    db_after: DB,
    r: Result<(), MigrationError>,
)
    requires
        target <= s.version <= before.plan().len(),
        rolled_back(before, after, s, t, target, db_before, db_after, r),
    ensures
        r is Ok ==> t.version == target,
        r matches Err(e) ==> {
            &&& e is RollbackFailed
            &&& e->RollbackFailed_version == t.version
            &&& target < t.version <= s.version
        },
        target <= t.version <= s.version,
        after.log().len() == before.log().len() + (s.version - t.version),
        forall|i: int|
            0 <= i < before.log().len() ==> #[trigger] after.log()[i] == before.log()[i],
        forall|i: int|
            before.log().len() <= i < after.log().len() ==> (#[trigger] after.log()[i]).version
                == s.version - (i - before.log().len()) && after.log()[i].direction is Down
                && after.log()[i].name == before.plan()[s.version - (i - before.log().len())
                - 1].name@,
{
    let dbs = choose|dbs: Seq<DB>| #[trigger]
        rolled_back_through(before, after, s, t, target, db_before, db_after, r, dbs);
}

/// A state beyond the plan cannot be rolled back: the attempt is refused with its version, and
/// state, log and database stay as they are.
pub proof fn law_rollback_beyond_the_plan_is_refused<DB>(
    before: MigrationManager<DB>,
    after: MigrationManager<DB>,
    s: SchemaModel,
    t: SchemaModel,
    target: MigrationVersion,
    db_before: DB,
    db_after: DB,
    r: Result<(), MigrationError>,
)
    requires
        target < s.version,
        before.plan().len() < s.version,
        rolled_back(before, after, s, t, target, db_before, db_after, r),
    ensures
        r is Err,
        r->Err_0 is RollbackUnavailable,
        r->Err_0->RollbackUnavailable_0 == s.version,
        t.version == s.version,
        t.applied_versions == s.applied_versions,
        after.log() == before.log(),
        db_after == db_before,
{
}

/// A migration or rollback to the version that stands leaves the database as it is; one of a single
/// step runs the migration of that version on it, and no other.
pub proof fn law_single_step_runs_one_migration<DB>(
    before: MigrationManager<DB>,
    after: MigrationManager<DB>,
    s: SchemaModel,
    t: SchemaModel,
    db_before: DB,
    db_after: DB,
    r: Result<(), MigrationError>,
)
    requires
        1 <= s.version <= before.plan().len(),
        s.version < u64::MAX,
    ensures
        migrated(before, after, s, t, s.version, db_before, db_after, r) ==> r is Ok && db_after
            == db_before,
        rolled_back(before, after, s, t, s.version, db_before, db_after, r) ==> r is Ok && db_after
            == db_before,
        migrated(before, after, s, t, (s.version + 1) as u64, db_before, db_after, r) ==> match r {
            Ok(()) => before.may_apply(s.version + 1, db_before, db_after, Ok(())),
            Err(e) => e is ApplyFailed && before.may_apply(
                s.version + 1,
                db_before,
                db_after,
                Err(e->ApplyFailed_reason),
            ),
        },
        rolled_back(before, after, s, t, (s.version - 1) as u64, db_before, db_after, r) ==> match r {
            Ok(()) => before.may_undo(s.version as int, db_before, db_after, Ok(())),
            Err(e) => e is RollbackFailed && before.may_undo(
                s.version as int,
                db_before,
                db_after,
                Err(e->RollbackFailed_reason),
            ),
        },
{
    let up = (s.version + 1) as u64;
    let down = (s.version - 1) as u64;
    if migrated(before, after, s, t, up, db_before, db_after, r) {
        let dbs = choose|dbs: Seq<DB>| #[trigger]
            migrated_through(before, after, s, t, up, db_before, db_after, r, dbs);
        if r is Ok {
            assert(before.may_apply(s.version + 0 + 1, dbs[0], dbs[1], Ok(())));
        }
    }
    if rolled_back(before, after, s, t, down, db_before, db_after, r) {
        let dbs = choose|dbs: Seq<DB>| #[trigger]
            rolled_back_through(before, after, s, t, down, db_before, db_after, r, dbs);
        if r is Ok {
            assert(before.may_undo(s.version - 0, dbs[0], dbs[1], Ok(())));
        }
    }
}

/// A plan is built exactly where the versions, in ascending order, count up from one; then it has a
/// step for each, in that order, and an empty log. Otherwise the first version out of place decides
/// the error.
pub proof fn law_plan_is_built_or_names_its_fault<DB>(
    migrations: Seq<Box<dyn Migration<DB>>>,
    r: Result<MigrationManager<DB>, MigrationError>,
    k: int,
)
    requires
        built_from(migrations, r),
    ensures
        ({
            let vs = sorted_versions(version_list(steps_of(migrations)));
            &&& r matches Ok(m) ==> {
                &&& m.plan().len() == vs.len()
                &&& 0 <= k < vs.len() ==> m.plan()[k].version == k + 1 && steps_of(
                    migrations,
                ).contains(m.plan()[k])
                &&& m.log().len() == 0
                &&& m.migrations() == migrations
            }
            &&& 0 <= k < vs.len() && counts_up(vs, k) && vs[k] != k + 1 ==> r == Err::<
                MigrationManager<DB>,
                _,
            >(plan_error(vs, k))
            &&& counts_up(vs, vs.len() as int) ==> r is Ok
        }),
{
    let vs = sorted_versions(version_list(steps_of(migrations)));
    if 0 <= k < vs.len() && counts_up(vs, k) && vs[k] != k + 1 {
        let j = choose|j: int|
            0 <= j < vs.len() && counts_up(vs, j) && vs[j] != j + 1 && r->Err_0
                == #[trigger] plan_error(vs, j);
        if j < k {
            assert(vs[j] == j + 1);
        }
        if k < j {
            assert(vs[k] == k + 1);
        }
    }
    if r is Ok {
        let m = r->Ok_0;
        assert(version_list(m.plan()).len() == m.plan().len());
        if 0 <= k < vs.len() {
            assert(version_list(m.plan())[k] == m.plan()[k].version);
            assert(vs[k] == k + 1);
            broadcast use vstd::seq_lib::group_to_multiset_ensures;

            assert(m.plan().contains(m.plan()[k]));
            assert(m.plan().to_multiset().count(m.plan()[k]) > 0);
        }
    }
}

impl<DB> MigrationManager<DB> {
    /// A version is applied and undone by the migration that was given for it, under its name.
    pub proof fn law_version_is_run_by_its_own_migration(
        &self,
        version: int,
        direction: MigrationDirection,
        before: DB,
        after: DB,
        r: Result<(), String>,
    )
        requires
            self.wf(),
            1 <= version <= self.plan().len(),
        ensures
            exists|i: int|
                0 <= i < self.migrations().len() && {
                    let m = #[trigger] self.migrations()[i];
                    &&& m.version_of() == version
                    &&& self.may_apply(version, before, after, r) == m.up_allows(before, after, r)
                    &&& self.may_undo(version, before, after, r) == m.down_allows(before, after, r)
                    &&& self.event(version, direction).name == m.name_of()@
                    &&& self.event(version, direction).version == version
                    &&& self.event(version, direction).direction == direction
                },
    {
        let step = self.plan()[version - 1];
        let m = self.migrations()[step.place as int];
        assert(m.version_of() == version);
    }
}

} // verus!
