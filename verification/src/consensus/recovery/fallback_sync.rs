//! Synchronous fallback consensus.
//!
//! After [`DEADLOCK_VIEW_THRESHOLD`] consecutive views without a committed block, replicas
//! exchange their locked values and agree on the one with the highest `lock_view`; ties are
//! broken by the lexicographically larger `block_hash`. Every honest replica selects the same
//! value given the same set of [`LockedValue`]s.

use std::cmp::Ordering;

use vstd::prelude::*;

use crate::byte_order::{
    bytes_before, lemma_array_view_injective, lemma_bytes_before_asymmetric,
    lemma_bytes_before_total, lemma_bytes_before_transitive, slice_before,
};
use crate::consensus::view_change::types::BlockHash;

verus! {

/// Number of consecutive views without a committed block before triggering synchronous fallback
/// consensus.
pub const DEADLOCK_VIEW_THRESHOLD: u64 = 5;

/// A replica's currently locked value: the block hash it is locked on and the view number at
/// which it locked.
#[derive(Clone, Copy, Debug, Eq, PartialEq)]
pub struct LockedValue {
    /// The block hash a replica is locked on.
    pub block_hash: BlockHash,
    /// The consensus view number at which the replica locked.
    pub lock_view: u64,
}

/// `a` goes before `b` in the selection: it was locked later, or in the same view on a larger
/// hash.
pub open spec fn outranks(a: LockedValue, b: LockedValue) -> bool {
    a.lock_view > b.lock_view || (a.lock_view == b.lock_view && bytes_before(
        b.block_hash@,
        a.block_hash@,
    ))
}

/// `v` is among the values and none of them outranks it.
pub open spec fn is_best(values: Seq<LockedValue>, v: LockedValue) -> bool {
    values.contains(v) && forall|i: int|
        0 <= i < values.len() ==> !outranks(#[trigger] values[i], v)
}

/// The value that the fallback selects.
pub open spec fn selected(values: Seq<LockedValue>) -> LockedValue {
    choose|v: LockedValue| is_best(values, v)
}

proof fn lemma_outranks_total(a: LockedValue, b: LockedValue)
    ensures
        a == b || outranks(a, b) || outranks(b, a),
        !(outranks(a, b) && outranks(b, a)),
        !outranks(a, a),
{
    lemma_bytes_before_total(a.block_hash@, b.block_hash@);
    lemma_array_view_injective(a.block_hash, b.block_hash);
    if bytes_before(a.block_hash@, b.block_hash@) {
        lemma_bytes_before_asymmetric(a.block_hash@, b.block_hash@);
    }
    if bytes_before(a.block_hash@, a.block_hash@) {
        lemma_bytes_before_asymmetric(a.block_hash@, a.block_hash@);
    }
}

proof fn lemma_outranks_transitive(a: LockedValue, b: LockedValue, c: LockedValue)
    requires
        outranks(a, b),
        outranks(b, c),
    ensures
        outranks(a, c),
{
    if a.lock_view == b.lock_view && b.lock_view == c.lock_view {
        lemma_bytes_before_transitive(c.block_hash@, b.block_hash@, a.block_hash@);
    }
}

/// At most one value is best: the selection does not depend on the order in which the values
/// arrived.
pub proof fn law_best_is_unique(values: Seq<LockedValue>, a: LockedValue, b: LockedValue)
    requires
        is_best(values, a),
        is_best(values, b),
    ensures
        a == b,
{
    let i = choose|i: int| 0 <= i < values.len() && values[i] == a;
    let j = choose|j: int| 0 <= j < values.len() && values[j] == b;
    assert(!outranks(values[i], b));
    assert(!outranks(values[j], a));
    lemma_outranks_total(a, b);
}

/// Among some values one is best.
pub proof fn law_best_exists(values: Seq<LockedValue>) -> (best: LockedValue)
    requires
        values.len() > 0,
    ensures
        is_best(values, best),
        best == selected(values),
    decreases values.len(),
{
    let last = values.last();
    lemma_outranks_total(last, last);
    let best = if values.len() == 1 {
        last
    } else {
        let init = values.drop_last();
        let w = law_best_exists(init);
        lemma_outranks_total(last, w);
        let best = if outranks(last, w) {
            last
        } else {
            w
        };
        assert forall|i: int| 0 <= i < values.len() implies !outranks(
            #[trigger] values[i],
            best,
        ) by {
            if i < values.len() - 1 {
                assert(!outranks(init[i], w));
                if outranks(last, w) && outranks(values[i], last) {
                    lemma_outranks_transitive(values[i], last, w);
                }
            }
        }
        let k = choose|k: int| 0 <= k < init.len() && init[k] == w;
        assert(values[k] == w);
        best
    };
    assert(values[values.len() - 1] == last);
    assert(is_best(values, best));
    law_best_is_unique(values, best, selected(values));
    best
}

/// Replicas that have received the same locked values select the same one, whatever the order
/// and the repetitions.
pub proof fn law_replicas_select_the_same(a: Seq<LockedValue>, b: Seq<LockedValue>)
    requires
        a.len() > 0,
        forall|v: LockedValue| a.contains(v) <==> b.contains(v),
    ensures
        selected(a) == selected(b),
{
    assert forall|v: LockedValue| is_best(a, v) == is_best(b, v) by {
        if is_best(a, v) {
            assert forall|i: int| 0 <= i < b.len() implies !outranks(#[trigger] b[i], v) by {
                assert(b.contains(b[i]));
                assert(a.contains(b[i]));
                let j = choose|j: int| 0 <= j < a.len() && a[j] == b[i];
                assert(!outranks(a[j], v));
            }
        }
        if is_best(b, v) {
            assert forall|i: int| 0 <= i < a.len() implies !outranks(#[trigger] a[i], v) by {
                assert(a.contains(a[i]));
                assert(b.contains(a[i]));
                let j = choose|j: int| 0 <= j < b.len() && b[j] == a[i];
                assert(!outranks(b[j], v));
            }
        }
    }
    assert(a.contains(a[0]));
    assert(b.contains(a[0]));
    let best_a = law_best_exists(a);
    let best_b = law_best_exists(b);
    law_best_is_unique(b, best_a, best_b);
}

impl LockedValue {
    /// Construct a new [`LockedValue`].
    pub fn new(block_hash: BlockHash, lock_view: u64) -> (r: Self)
        ensures
            r == (LockedValue { block_hash, lock_view }),
    {
        LockedValue { block_hash, lock_view }
    }

    /// Deterministic comparison for fallback selection: highest `lock_view` wins; ties broken by
    /// lexicographically larger `block_hash`.
    fn selection_cmp(&self, other: &Self) -> (r: Ordering)
        ensures
            match r {
                Ordering::Less => outranks(*other, *self),
                Ordering::Equal => *self == *other,
                Ordering::Greater => outranks(*self, *other),
            },
    {
        proof {
            lemma_outranks_total(*self, *other);
        }
        if self.lock_view < other.lock_view {
            return Ordering::Less;
        }
        if self.lock_view > other.lock_view {
            return Ordering::Greater;
        }
        if slice_before(self.block_hash.as_slice(), other.block_hash.as_slice()) {
            return Ordering::Less;
        }
        if slice_before(other.block_hash.as_slice(), self.block_hash.as_slice()) {
            return Ordering::Greater;
        }
        Ordering::Equal
    }
}

/// Observability events emitted by [`FallbackSyncEngine`].
#[derive(Clone, Debug, Eq, PartialEq)]
pub enum FallbackSyncEvent {
    /// Fallback consensus was triggered after `deadlocked_views` consecutive views without a
    /// committed block.
    FallbackTriggered {
        /// Current consensus view when fallback was triggered.
        current_view: u64,
        /// Number of consecutive deadlocked views.
        deadlocked_views: u64,
    },
    /// The fallback proposal was selected from the exchanged locked values.
    FallbackProposalSelected {
        /// The selected fallback proposal.
        block_hash: BlockHash,
        /// Lock view of the winning locked value.
        lock_view: u64,
    },
    /// Fallback consensus completed and the block was committed.
    FallbackCommitted {
        /// The committed block hash.
        block_hash: BlockHash,
        /// The view in which fallback consensus completed.
        committed_view: u64,
    },
    /// A committed block reset the deadlock counter.
    DeadlockCounterReset {
        /// View at which the counter was reset.
        at_view: u64,
    },
}

/// Errors returned by [`FallbackSyncEngine`] operations.
#[derive(Clone, Copy, Debug, Eq, PartialEq)]
pub enum FallbackSyncError {
    /// No locked values were provided; cannot select a fallback proposal.
    NoLockedValues,
    /// The fallback engine was called but the deadlock threshold has not been reached.
    ThresholdNotReached { current_deadlocked_views: u64, required: u64 },
}

/// Synchronous fallback consensus engine.
///
/// Tracks consecutive deadlocked views. When the count reaches [`DEADLOCK_VIEW_THRESHOLD`],
/// callers invoke [`FallbackSyncEngine::run_fallback`] with the set of locked values collected
/// from all replicas.
#[derive(Clone, Debug, Eq, PartialEq)]
pub struct FallbackSyncEngine {
    deadlocked_views: u64,
    current_view: u64,
    events: Vec<FallbackSyncEvent>,
}

/// What a fallback engine knows.
pub struct FallbackState {
    /// Number of consecutive views with no committed block.
    pub deadlocked_views: u64,
    /// Current consensus view.
    pub current_view: u64,
    /// Events since they were last drained.
    pub events: Seq<FallbackSyncEvent>,
}

/// The deadlock threshold has been reached.
pub open spec fn deadlocked(s: FallbackState) -> bool {
    s.deadlocked_views >= DEADLOCK_VIEW_THRESHOLD
}

/// The state after a view without a committed block.
pub open spec fn view_missed(s: FallbackState) -> FallbackState {
    FallbackState {
        current_view: s.current_view.saturating_add(1),
        deadlocked_views: s.deadlocked_views.saturating_add(1),
        ..s
    }
}

/// The state after a block was committed.
pub open spec fn committed(s: FallbackState) -> FallbackState {
    FallbackState {
        deadlocked_views: 0,
        events: s.events.push(FallbackSyncEvent::DeadlockCounterReset { at_view: s.current_view }),
        ..s
    }
}

/// What running the fallback returns.
pub open spec fn fallback_result(s: FallbackState, values: Seq<LockedValue>) -> Result<
    BlockHash,
    FallbackSyncError,
> {
    if !deadlocked(s) {
        Err(
            FallbackSyncError::ThresholdNotReached {
                current_deadlocked_views: s.deadlocked_views,
                required: DEADLOCK_VIEW_THRESHOLD,
            },
        )
    } else if values.len() == 0 {
        Err(FallbackSyncError::NoLockedValues)
    } else {
        Ok(selected(values).block_hash)
    }
}

/// The state after running the fallback.
pub open spec fn after_fallback(s: FallbackState, values: Seq<LockedValue>) -> FallbackState {
    let triggered = FallbackState {
        events: s.events.push(
            FallbackSyncEvent::FallbackTriggered {
                current_view: s.current_view,
                deadlocked_views: s.deadlocked_views,
            },
        ),
        ..s
    };
    if !deadlocked(s) {
        s
    } else if values.len() == 0 {
        triggered
    } else {
        let best = selected(values);
        committed(
            FallbackState {
                events: triggered.events.push(
                    FallbackSyncEvent::FallbackProposalSelected {
                        block_hash: best.block_hash,
                        lock_view: best.lock_view,
                    },
                ).push(
                    FallbackSyncEvent::FallbackCommitted {
                        block_hash: best.block_hash,
                        committed_view: s.current_view,
                    },
                ),
                ..triggered
            },
        )
    }
}

/// The engine is deadlocked after exactly the threshold of missed views since the last commit.
pub proof fn law_deadlock_after_threshold(s: FallbackState)
    ensures
        !deadlocked(committed(s)),
        !deadlocked(view_missed(view_missed(view_missed(view_missed(committed(s)))))),
        deadlocked(
            view_missed(view_missed(view_missed(view_missed(view_missed(committed(s)))))),
        ),
{
}

/// A fallback that commits a block ends the deadlock and keeps the view.
pub proof fn law_fallback_ends_deadlock(s: FallbackState, values: Seq<LockedValue>)
    requires
        fallback_result(s, values) is Ok,
    ensures
        !deadlocked(after_fallback(s, values)),
        after_fallback(s, values).current_view == s.current_view,
{
}

impl View for FallbackSyncEngine {
    type V = FallbackState;

    closed spec fn view(&self) -> FallbackState {
        FallbackState {
            deadlocked_views: self.deadlocked_views,
            current_view: self.current_view,
            events: self.events@,
        }
    }
}

/// The best of some locked values.
fn select_best(values: &[LockedValue]) -> (r: Option<LockedValue>)
    ensures
        r is None <==> values@.len() == 0,
        r matches Some(v) ==> is_best(values@, v) && v == selected(values@),
{
    if values.len() == 0 {
        return None;
    }
    let mut best: LockedValue = values[0];
    let mut i: usize = 1;
    proof {
        lemma_outranks_total(best, best);
    }
    while i < values.len()
        invariant
            1 <= i <= values@.len(),
            values@.contains(best),
            forall|j: int| 0 <= j < i ==> !outranks(#[trigger] values@[j], best),
        decreases values@.len() - i,
    {
        let candidate: LockedValue = values[i];
        proof {
            lemma_outranks_total(candidate, best);
            lemma_outranks_total(candidate, candidate);
        }
        match best.selection_cmp(&candidate) {
            Ordering::Less => {
                proof {
                    assert forall|j: int| 0 <= j < i + 1 implies !outranks(
                        #[trigger] values@[j],
                        candidate,
                    ) by {
                        let w = values@[j];
                        if j < i && outranks(w, candidate) {
                            lemma_outranks_transitive(w, candidate, best);
                        }
                    }
                }
                best = candidate;
            },
            Ordering::Equal | Ordering::Greater => {
            },
        }
        i = i + 1;
    }
    proof {
        assert(is_best(values@, best));
        law_best_is_unique(values@, best, selected(values@));
    }
    Some(best)
}

impl FallbackSyncEngine {
    /// Create a new engine starting at `initial_view`.
    pub fn new(initial_view: u64) -> (r: Self)
        ensures
            r@ == (FallbackState {
                deadlocked_views: 0,
                current_view: initial_view,
                events: Seq::empty(),
            }),
    {
        FallbackSyncEngine { deadlocked_views: 0, current_view: initial_view, events: Vec::new() }
    }

    /// Current active consensus view.
    pub fn current_view(&self) -> (r: u64)
        ensures
            r == self@.current_view,
    {
        self.current_view
    }

    /// Number of consecutive views without a committed block.
    pub fn deadlocked_views(&self) -> (r: u64)
        ensures
            r == self@.deadlocked_views,
    {
        self.deadlocked_views
    }

    /// Whether the deadlock threshold has been reached and fallback should fire.
    pub fn is_deadlocked(&self) -> (r: bool)
        ensures
            r == deadlocked(self@),
    {
        self.deadlocked_views >= DEADLOCK_VIEW_THRESHOLD
    }

    /// Notify the engine that a new view started without a committed block.
    ///
    /// Increments the deadlock counter and advances `current_view`.
    pub fn on_view_timeout(&mut self)
        ensures
            final(self)@ == view_missed(old(self)@),
    {
        self.current_view = self.current_view.saturating_add(1);
        self.deadlocked_views = self.deadlocked_views.saturating_add(1);
    }

    /// Notify the engine that a block was successfully committed, resetting the deadlock counter.
    pub fn on_commit(&mut self)
        ensures
            final(self)@ == committed(old(self)@),
    {
        self.deadlocked_views = 0;
        self.events.push(FallbackSyncEvent::DeadlockCounterReset { at_view: self.current_view });
    }

    /// Run one round of synchronous fallback consensus on the [`LockedValue`]s broadcast by all
    /// replicas. A replica with no locked value contributes nothing.
    ///
    /// Returns the fallback proposal chosen and committed, or an error when called before the
    /// deadlock threshold or when no replica has a lock.
    pub fn run_fallback(&mut self, locked_values: &[LockedValue]) -> (r: Result<
        BlockHash,
        FallbackSyncError,
    >)
        ensures
            r == fallback_result(old(self)@, locked_values@),
            final(self)@ == after_fallback(old(self)@, locked_values@),
            r is Ok ==> is_best(locked_values@, selected(locked_values@)),
    {
        if !self.is_deadlocked() {
            return Err(
                FallbackSyncError::ThresholdNotReached {
                    current_deadlocked_views: self.deadlocked_views,
                    required: DEADLOCK_VIEW_THRESHOLD,
                },
            );
        }
        self.events.push(
            FallbackSyncEvent::FallbackTriggered {
                current_view: self.current_view,
                deadlocked_views: self.deadlocked_views,
            },
        );
        let best: LockedValue = match select_best(locked_values) {
            Some(best) => best,
            None => return Err(FallbackSyncError::NoLockedValues),
        };
        self.events.push(
            FallbackSyncEvent::FallbackProposalSelected {
                block_hash: best.block_hash,
                lock_view: best.lock_view,
            },
        );
        let committed_hash: BlockHash = best.block_hash;
        self.events.push(
            FallbackSyncEvent::FallbackCommitted {
                block_hash: committed_hash,
                committed_view: self.current_view,
            },
        );
        self.on_commit();
        Ok(committed_hash)
    }

    /// Drain and return all accumulated events.
    pub fn drain_events(&mut self) -> (r: Vec<FallbackSyncEvent>)
        ensures
            r@ == old(self)@.events,
            final(self)@ == (FallbackState { events: Seq::empty(), ..old(self)@ }),
    {
        let mut drained: Vec<FallbackSyncEvent> = Vec::new();
        core::mem::swap(&mut self.events, &mut drained);
        drained
    }

    /// Slice of all accumulated events without draining.
    pub fn events(&self) -> (r: &[FallbackSyncEvent])
        ensures
            r@ == self@.events,
    {
        self.events.as_slice()
    }
}

/// Each view without a commit counts one towards the deadlock, which five of them make; a commit
/// starts the count over and reports the view.
pub proof fn law_missed_views_are_counted(s: FallbackState)
    requires
        s.current_view < u64::MAX,
        s.deadlocked_views < u64::MAX,
    ensures
        deadlocked(s) <==> s.deadlocked_views >= 5,
        view_missed(s).deadlocked_views == s.deadlocked_views + 1,
        view_missed(s).current_view == s.current_view + 1,
        view_missed(s).events == s.events,
        committed(s).deadlocked_views == 0,
        committed(s).current_view == s.current_view,
        committed(s).events.len() == s.events.len() + 1,
        committed(s).events.drop_last() == s.events,
        committed(s).events.last() == (FallbackSyncEvent::DeadlockCounterReset {
            at_view: s.current_view,
        }),
{
    assert(committed(s).events.drop_last() =~= s.events);
}

/// Before five views were missed the fallback is refused with the count, and without locked values
/// it fails; otherwise it gives the hash of a value that was locked in the latest view of all and
/// whose hash no other hash locked in that view comes after.
pub proof fn law_fallback_takes_the_latest_lock(s: FallbackState, values: Seq<LockedValue>)
    ensures
        fallback_result(s, values) matches Err(
            FallbackSyncError::ThresholdNotReached { current_deadlocked_views, required },
        ) ==> current_deadlocked_views == s.deadlocked_views && required == 5,
        (fallback_result(s, values) is Err && fallback_result(s, values)->Err_0
            is ThresholdNotReached) <==> s.deadlocked_views < 5,
        (fallback_result(s, values) is Err && fallback_result(s, values)->Err_0
            is NoLockedValues) <==> s.deadlocked_views >= 5 && values.len() == 0,
        fallback_result(s, values) is Ok <==> s.deadlocked_views >= 5 && values.len() > 0,
        fallback_result(s, values) matches Ok(hash) ==> {
            &&& exists|i: int|
                0 <= i < values.len() && (#[trigger] values[i]).block_hash == hash
                    && values[i].lock_view == selected(values).lock_view
            &&& forall|j: int|
                0 <= j < values.len() ==> (#[trigger] values[j]).lock_view <= selected(
                    values,
                ).lock_view
            &&& forall|j: int|
                0 <= j < values.len() && (#[trigger] values[j]).lock_view == selected(
                    values,
                ).lock_view ==> !bytes_before(hash@, values[j].block_hash@)
        },
{
    if values.len() > 0 {
        let best = law_best_exists(values);
        let i = choose|i: int| 0 <= i < values.len() && values[i] == best;
        assert(values[i].block_hash == best.block_hash);
        assert forall|j: int| 0 <= j < values.len() implies (#[trigger] values[j]).lock_view
            <= best.lock_view by {
            assert(!outranks(values[j], best));
        }
        assert forall|j: int|
            0 <= j < values.len() && (#[trigger] values[j]).lock_view
                == best.lock_view implies !bytes_before(
            best.block_hash@,
            values[j].block_hash@,
        ) by {
            assert(!outranks(values[j], best));
        }
    }
}

/// A fallback reports that it was triggered, what it selected, what it committed and that the
/// count starts over, in this order; without locked values it reports only the first, and before
/// the deadlock nothing happens.
pub proof fn law_fallback_is_reported(s: FallbackState, values: Seq<LockedValue>)
    ensures
        ({
            let t = after_fallback(s, values);
            let n = s.events.len() as int;
            let best = selected(values);
            &&& t.current_view == s.current_view
            &&& s.deadlocked_views < 5 ==> t == s
            &&& s.deadlocked_views >= 5 ==> {
                &&& t.events.len() == n + (if values.len() == 0 {
                    1int
                } else {
                    4int
                })
                &&& forall|i: int| 0 <= i < n ==> #[trigger] t.events[i] == s.events[i]
                &&& t.events[n] == (FallbackSyncEvent::FallbackTriggered {
                    current_view: s.current_view,
                    deadlocked_views: s.deadlocked_views,
                })
                &&& values.len() == 0 ==> t.deadlocked_views == s.deadlocked_views
                &&& values.len() > 0 ==> {
                    &&& t.deadlocked_views == 0
                    &&& t.events[n + 1] == (FallbackSyncEvent::FallbackProposalSelected {
                        block_hash: best.block_hash,
                        lock_view: best.lock_view,
                    })
                    &&& t.events[n + 2] == (FallbackSyncEvent::FallbackCommitted {
                        block_hash: best.block_hash,
                        committed_view: s.current_view,
                    })
                    &&& t.events[n + 3] == (FallbackSyncEvent::DeadlockCounterReset {
                        at_view: s.current_view,
                    })
                }
            }
        }),
{
}

} // verus!
