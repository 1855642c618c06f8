//! View-change quorum certificate partition resolver.
//!
//! [`ViewChangeResolver`] orchestrates proposal generation with monotonically increasing
//! `qc_epoch` counters, evaluates incoming QCs against deterministic tie-breaking rules, places
//! conflicting QCs into a quarantine buffer, and records observability events.

use std::cmp::Ordering;

use vstd::prelude::*;

use crate::consensus::view_change::quarantine::{
    certificates, holds, law_quarantine_lasts_two_rounds, served, serving, with_quarantined, HeldQc,
    QuarantineBuffer,
};
use crate::consensus::view_change::types::{
    beats, law_tie_break_total, law_tie_break_transitive, law_winner_is_unbeaten, preferred, winner,
    AggregateSignature, BlockHash, PublicKey, QcConflictDetected, QcModel, ViewChangeError,
    ViewChangeEvent, QC,
};
use crate::ordered_map::OrderedMap;
use crate::seqs::lemma_filter_source;

verus! {

/// Result outcome of processing an incoming quorum certificate.
#[derive(Clone, Copy, Debug, Eq, PartialEq)]
pub enum QcProcessOutcome {
    /// QC accepted as the first canonical certificate for this view.
    AcceptedNew,
    /// QC is identical to the certificate already accepted for this view.
    AlreadyAccepted,
    /// QC conflicted with an existing certificate, won the tie-break, and replaced it.
    ConflictResolvedAccepted,
    /// QC conflicted with an existing certificate, lost the tie-break, and was quarantined.
    ConflictResolvedQuarantined,
}

/// State coordinator managing view changes, monotonic proposal epochs, QC conflict resolution,
/// and quarantine lifecycle.
#[derive(Clone, Debug, Eq, PartialEq)]
pub struct ViewChangeResolver {
    current_view: u64,
    current_qc_epoch: u64,
    accepted_qcs: OrderedMap<u64, QC>,
    quarantine_buffer: QuarantineBuffer,
    events: Vec<ViewChangeEvent>,
}

/// What a resolver knows.
pub struct ResolverState {
    /// Active consensus view of this node.
    pub current_view: u64,
    /// Monotonically incrementing proposal epoch counter.
    pub current_qc_epoch: u64,
    /// Accepted canonical QCs by view number.
    pub accepted: Map<u64, QcModel>,
    /// What the quarantine buffer holds.
    pub quarantine: Seq<HeldQc>,
    /// Events since they were last drained.
    pub events: Seq<ViewChangeEvent>,
}

/// The certificates of a map, as what they say.
pub open spec fn accepted_model(m: Map<u64, QC>) -> Map<u64, QcModel> {
    Map::new(|v: u64| m.dom().contains(v), |v: u64| m[v]@)
}

/// The outcome of processing `qc` in state `s`.
pub open spec fn process_outcome(s: ResolverState, qc: QcModel) -> QcProcessOutcome {
    if !s.accepted.dom().contains(qc.view) {
        QcProcessOutcome::AcceptedNew
    } else if s.accepted[qc.view] == qc {
        QcProcessOutcome::AlreadyAccepted
    } else if beats(qc, s.accepted[qc.view]) {
        QcProcessOutcome::ConflictResolvedAccepted
    } else {
        QcProcessOutcome::ConflictResolvedQuarantined
    }
}

/// The state after processing `qc` in state `s`.
pub open spec fn processed(s: ResolverState, qc: QcModel) -> ResolverState {
    if !s.accepted.dom().contains(qc.view) {
        ResolverState {
            accepted: s.accepted.insert(qc.view, qc),
            events: s.events.push(
                ViewChangeEvent::QcAccepted { view: qc.view, qc_epoch: qc.qc_epoch },
            ),
            ..s
        }
    } else {
        let existing = s.accepted[qc.view];
        let conflict = ViewChangeEvent::QcConflictDetected {
            view: qc.view,
            qc_epoch_a: existing.qc_epoch,
            qc_epoch_b: qc.qc_epoch,
        };
        if existing == qc {
            s
        } else if beats(qc, existing) {
            ResolverState {
                accepted: s.accepted.insert(qc.view, qc),
                quarantine: with_quarantined(s.quarantine, existing, s.current_view),
                events: s.events + seq![
                    conflict,
                    ViewChangeEvent::QcQuarantined {
                        view: qc.view,
                        qc_epoch: existing.qc_epoch,
                        quarantined_at_round: s.current_view,
                    },
                    ViewChangeEvent::QcAccepted { view: qc.view, qc_epoch: qc.qc_epoch },
                ],
                ..s
            }
        } else {
            ResolverState {
                quarantine: with_quarantined(s.quarantine, qc, s.current_view),
                events: s.events + seq![
                    conflict,
                    ViewChangeEvent::QcQuarantined {
                        view: qc.view,
                        qc_epoch: qc.qc_epoch,
                        quarantined_at_round: s.current_view,
                    },
                ],
                ..s
            }
        }
    }
}

/// The resolver after it has moved on to a view and let go of some certificates.
pub open spec fn view_advanced(s: ResolverState, new_view: u64, evicted: usize) -> ResolverState {
    let advanced = ViewChangeEvent::ViewAdvanced { new_view };
    ResolverState {
        current_view: new_view,
        quarantine: s.quarantine.filter(serving(new_view)),
        events: if evicted > 0 {
            s.events.push(
                ViewChangeEvent::QcGarbageCollected { evicted_count: evicted, at_view: new_view },
            ).push(advanced)
        } else {
            s.events.push(advanced)
        },
        ..s
    }
}

/// What asking for a proposal gives.
pub open spec fn proposal_result(
    s: ResolverState,
    view: u64,
    block_hash: BlockHash,
    signers: Vec<PublicKey>,
    signature: AggregateSignature,
) -> Result<QC, ViewChangeError> {
    if signers@.len() == 0 {
        Err(ViewChangeError::EmptySigners)
    } else if s.current_qc_epoch == u64::MAX {
        Err(ViewChangeError::EpochOverflow)
    } else {
        Ok(
            QC {
                view,
                qc_epoch: (s.current_qc_epoch + 1) as u64,
                block_hash,
                signers,
                signature,
            },
        )
    }
}

/// The resolver after a proposal has been asked for.
pub open spec fn proposal_created(
    s: ResolverState,
    result: Result<QC, ViewChangeError>,
) -> ResolverState {
    match result {
        Ok(qc) => ResolverState { current_qc_epoch: qc.qc_epoch, ..s },
        Err(_) => s,
    }
}

/// Processing a certificate keeps, for its view, the preferred one of what was accepted and what
/// came in, and leaves every other view alone.
pub proof fn law_processing_keeps_the_preferred(s: ResolverState, qc: QcModel)
    ensures
        processed(s, qc).accepted.dom().contains(qc.view),
        processed(s, qc).accepted[qc.view] == if s.accepted.dom().contains(qc.view) {
            preferred(s.accepted[qc.view], qc)
        } else {
            qc
        },
        forall|v: u64|
            v != qc.view ==> (processed(s, qc).accepted.dom().contains(v)
                == s.accepted.dom().contains(v) && processed(s, qc).accepted[v] == s.accepted[v]),
{
    if s.accepted.dom().contains(qc.view) {
        law_tie_break_total(qc, s.accepted[qc.view]);
    }
}

/// A certificate that loses against another one is in quarantine afterwards.
pub proof fn law_loser_is_quarantined(s: ResolverState, qc: QcModel)
    requires
        s.accepted.dom().contains(qc.view),
        s.accepted[qc.view] != qc,
    ensures
        beats(qc, s.accepted[qc.view]) ==> holds(
            processed(s, qc).quarantine,
            s.accepted[qc.view],
        ),
        !beats(qc, s.accepted[qc.view]) ==> holds(processed(s, qc).quarantine, qc),
{
    let loser = if beats(qc, s.accepted[qc.view]) {
        s.accepted[qc.view]
    } else {
        qc
    };
    let q = with_quarantined(s.quarantine, loser, s.current_view);
    if !holds(s.quarantine, loser) {
        assert(q[s.quarantine.len() as int].qc == loser);
    }
}

/// Every accepted certificate stands under its own view; every certificate in quarantine is of a
/// view with an accepted one, which is another and which it does not beat.
pub open spec fn resolver_ok(s: ResolverState) -> bool {
    &&& forall|v: u64| #[trigger] s.accepted.dom().contains(v) ==> s.accepted[v].view == v
    &&& forall|i: int|
        0 <= i < s.quarantine.len() ==> outranked((#[trigger] s.quarantine[i]).qc, s.accepted)
}

/// The view of a certificate has an accepted one, which is another and which it does not beat.
pub open spec fn outranked(qc: QcModel, accepted: Map<u64, QcModel>) -> bool {
    &&& accepted.dom().contains(qc.view)
    &&& accepted[qc.view] != qc
    &&& !beats(qc, accepted[qc.view])
}

/// Processing a certificate keeps the accepted ones under their views, and none of them in
/// quarantine.
pub proof fn law_processing_keeps_order(s: ResolverState, qc: QcModel)
    requires
        resolver_ok(s),
    ensures
        resolver_ok(processed(s, qc)),
{
    let t = processed(s, qc);
    if s.accepted.dom().contains(qc.view) {
        let existing = s.accepted[qc.view];
        law_tie_break_total(qc, existing);
        assert forall|i: int| 0 <= i < t.quarantine.len() implies outranked(
            (#[trigger] t.quarantine[i]).qc,
            t.accepted,
        ) by {
            let q = t.quarantine[i].qc;
            if i < s.quarantine.len() {
                assert(outranked(s.quarantine[i].qc, s.accepted));
                if q.view == qc.view && beats(qc, existing) && beats(q, qc) {
                    law_tie_break_transitive(q, qc, existing);
                }
            }
        }
    } else {
        assert forall|i: int| 0 <= i < t.quarantine.len() implies outranked(
            (#[trigger] t.quarantine[i]).qc,
            t.accepted,
        ) by {
            assert(outranked(s.quarantine[i].qc, s.accepted));
        }
    }
    assert forall|v: u64| #[trigger] t.accepted.dom().contains(v) implies t.accepted[v].view == v by {
        if v != qc.view {
            assert(s.accepted.dom().contains(v));
        }
    }
}

/// The state after processing some certificates in their order.
pub open spec fn processed_all(s: ResolverState, qcs: Seq<QcModel>) -> ResolverState
    decreases qcs.len(),
{
    if qcs.len() == 0 {
        s
    } else {
        processed(processed_all(s, qcs.drop_last()), qcs.last())
    }
}

/// Is of the view.
pub open spec fn of_view(v: u64) -> spec_fn(QcModel) -> bool {
    |q: QcModel| q.view == v
}

proof fn lemma_quarantine_grows(s: ResolverState, qc: QcModel, q: QcModel)
    requires
        holds(s.quarantine, q),
    ensures
        holds(processed(s, qc).quarantine, q),
{
    let i = choose|i: int| 0 <= i < s.quarantine.len() && #[trigger] s.quarantine[i].qc == q;
    assert(processed(s, qc).quarantine[i].qc == q);
}

proof fn lemma_run(s: ResolverState, qcs: Seq<QcModel>, v: u64)
    requires
        resolver_ok(s),
        !s.accepted.dom().contains(v),
    ensures
        ({
            let t = processed_all(s, qcs);
            let seen = qcs.filter(of_view(v));
            &&& resolver_ok(t)
            &&& t.accepted.dom().contains(v) <==> seen.len() > 0
            &&& seen.len() > 0 ==> t.accepted[v] == winner(seen)
            &&& forall|i: int|
                0 <= i < qcs.len() && (#[trigger] qcs[i]).view == v ==> seen.len() > 0 && (qcs[i]
                    == t.accepted[v] || holds(t.quarantine, qcs[i]))
        }),
    decreases qcs.len(),
{
    reveal(Seq::filter);
    if qcs.len() > 0 {
        let n = qcs.len() - 1;
        let init = qcs.drop_last();
        let x = qcs[n];
        lemma_run(s, init, v);
        let u = processed_all(s, init);
        let t = processed_all(s, qcs);
        assert(t == processed(u, x));
        law_processing_keeps_order(u, x);
        law_processing_keeps_the_preferred(u, x);
        let before = init.filter(of_view(v));
        let seen = qcs.filter(of_view(v));
        if x.view == v {
            assert(seen == before.push(x));
            assert(seen.drop_last() =~= before);
            if u.accepted.dom().contains(v) && u.accepted[v] != x {
                law_loser_is_quarantined(u, x);
            }
        } else {
            assert(seen == before);
        }
        assert forall|i: int| 0 <= i < qcs.len() && (#[trigger] qcs[i]).view == v implies seen.len()
            > 0 && (qcs[i] == t.accepted[v] || holds(t.quarantine, qcs[i])) by {
            if i < n {
                assert(init[i] == qcs[i]);
                if holds(u.quarantine, qcs[i]) {
                    lemma_quarantine_grows(u, x, qcs[i]);
                }
            }
        }
    }
}

/// Over a whole run, from a state in which a view has no certificate yet, the accepted certificate
/// of the view is the winner among all that were processed for it: it is one of them, none of them
/// beats it, all others are in quarantine, and it is not.
pub proof fn law_run_settles_the_view(s: ResolverState, qcs: Seq<QcModel>, v: u64)
    requires
        resolver_ok(s),
        !s.accepted.dom().contains(v),
        exists|i: int| 0 <= i < qcs.len() && (#[trigger] qcs[i]).view == v,
    ensures
        ({
            let t = processed_all(s, qcs);
            &&& t.accepted.dom().contains(v)
            &&& t.accepted[v] == winner(qcs.filter(of_view(v)))
            &&& t.accepted[v].view == v
            &&& qcs.contains(t.accepted[v])
            &&& forall|i: int|
                0 <= i < qcs.len() && (#[trigger] qcs[i]).view == v ==> !beats(
                    qcs[i],
                    t.accepted[v],
                ) && (qcs[i] == t.accepted[v] || holds(t.quarantine, qcs[i]))
            &&& !holds(t.quarantine, t.accepted[v])
        }),
{
    let t = processed_all(s, qcs);
    let seen = qcs.filter(of_view(v));
    lemma_run(s, qcs, v);
    let w = t.accepted[v];
    law_winner_is_unbeaten(seen);
    let k = choose|k: int| 0 <= k < seen.len() && seen[k] == w;
    lemma_filter_source(qcs, of_view(v), k);
    assert forall|i: int| 0 <= i < qcs.len() && (#[trigger] qcs[i]).view == v implies !beats(
        qcs[i],
        w,
    ) by {
        qcs.lemma_filter_contains(of_view(v), i);
        let j = choose|j: int| 0 <= j < seen.len() && seen[j] == qcs[i];
        assert(!beats(seen[j], w));
    }
    if holds(t.quarantine, w) {
        let i = choose|i: int| 0 <= i < t.quarantine.len() && #[trigger] t.quarantine[i].qc == w;
        assert(outranked(t.quarantine[i].qc, t.accepted));
    }
}

impl View for ViewChangeResolver {
    type V = ResolverState;

    closed spec fn view(&self) -> ResolverState {
        ResolverState {
            current_view: self.current_view,
            current_qc_epoch: self.current_qc_epoch,
            accepted: accepted_model(self.accepted_qcs@),
            quarantine: self.quarantine_buffer@,
            events: self.events@,
        }
    }
}

impl ViewChangeResolver {
    /// Every accepted certificate stands under its own view, and none of them is in quarantine.
    pub closed spec fn wf(&self) -> bool {
        &&& self.accepted_qcs.wf()
        &&& resolver_ok(self@)
    }

    /// Every accepted certificate stands under its own view, and is never in quarantine.
    pub proof fn law_accepted_under_own_view(&self, v: u64)
        requires
            self.wf(),
            self@.accepted.dom().contains(v),
        ensures
            self@.accepted[v].view == v,
            !holds(self@.quarantine, self@.accepted[v]),
    {
        let w = self@.accepted[v];
        let q = self@.quarantine;
        if holds(q, w) {
            let i = choose|i: int| 0 <= i < q.len() && #[trigger] q[i].qc == w;
            assert(outranked(q[i].qc, self@.accepted));
        }
    }

    /// There are finitely many accepted certificates, and those in quarantine lost against one.
    pub proof fn law_in_order(&self)
        requires
            self.wf(),
        ensures
            self@.accepted.dom().finite(),
            resolver_ok(self@),
    {
        self.accepted_qcs.lemma_finite();
        assert(self@.accepted.dom() =~= self.accepted_qcs@.dom());
    }

    /// Create a new resolver starting at `initial_view` with `qc_epoch = 0`.
    pub fn new(initial_view: u64) -> (r: Self)
        ensures
            r.wf(),
            r@ == (ResolverState {
                current_view: initial_view,
                current_qc_epoch: 0,
                accepted: Map::empty(),
                quarantine: Seq::empty(),
                events: Seq::empty(),
            }),
    {
        let r = ViewChangeResolver {
            current_view: initial_view,
            current_qc_epoch: 0,
            accepted_qcs: OrderedMap::new(),
            quarantine_buffer: QuarantineBuffer::new(),
            events: Vec::new(),
        };
        assert(r@.accepted =~= Map::empty());
        r
    }

    /// Current active view number.
    pub fn current_view(&self) -> (r: u64)
        ensures
            r == self@.current_view,
    {
        self.current_view
    }

    /// Current monotonic proposal epoch counter.
    pub fn current_qc_epoch(&self) -> (r: u64)
        ensures
            r == self@.current_qc_epoch,
    {
        self.current_qc_epoch
    }

    /// Create a new proposal QC for `view`.
    ///
    /// Monotonically increments the internal `qc_epoch` counter and assigns it to the proposal.
    pub fn create_proposal(
        &mut self,
        view: u64,
        block_hash: BlockHash,
        signers: Vec<PublicKey>,
        signature: AggregateSignature,
    ) -> (r: Result<QC, ViewChangeError>)
        requires
            old(self).wf(),
        ensures
            final(self).wf(),
            r == proposal_result(old(self)@, view, block_hash, signers, signature),
            final(self)@ == proposal_created(old(self)@, r),
    {
        if signers.is_empty() {
            return Err(ViewChangeError::EmptySigners);
        }
        match self.current_qc_epoch.checked_add(1) {
            Some(next) => {
                self.current_qc_epoch = next;
                assert(self@.accepted == old(self)@.accepted);
                assert(self@.quarantine == old(self)@.quarantine);
                Ok(QC::new(view, next, block_hash, signers, signature))
            },
            None => Err(ViewChangeError::EpochOverflow),
        }
    }

    /// Process an incoming quorum certificate against the accepted QCs.
    ///
    /// If no QC exists for this view, it is accepted. If an identical QC exists, it is
    /// deduplicated. If a divergent QC exists for the same view, the conflict is recorded, the
    /// winner of the tie-break becomes canonical, and the loser is placed into the quarantine
    /// buffer.
    pub fn process_qc(&mut self, incoming_qc: QC) -> (r: Result<QcProcessOutcome, ViewChangeError>)
        requires
            old(self).wf(),
        ensures
            final(self).wf(),
            incoming_qc@.signers.len() == 0 ==> {
                &&& r == Err::<QcProcessOutcome, _>(ViewChangeError::EmptySigners)
                &&& final(self)@ == old(self)@
            },
            incoming_qc@.signers.len() > 0 ==> {
                &&& r == Ok::<_, ViewChangeError>(process_outcome(old(self)@, incoming_qc@))
                &&& final(self)@ == processed(old(self)@, incoming_qc@)
            },
    {
        if incoming_qc.signers.is_empty() {
            return Err(ViewChangeError::EmptySigners);
        }
        let view: u64 = incoming_qc.view;
        let ghost s = self@;
        let ghost qc = incoming_qc@;
        proof {
            law_processing_keeps_order(s, qc);
        }
        let existing: Option<QC> = match self.accepted_qcs.get(&view) {
            Some(found) => Some(found.clone()),
            None => None,
        };
        match existing {
            Some(existing) => {
                if existing.same_as(&incoming_qc) {
                    return Ok(QcProcessOutcome::AlreadyAccepted);
                }
                proof {
                    law_tie_break_total(existing@, qc);
                }
                self.events.push(
                    ViewChangeEvent::QcConflictDetected {
                        view,
                        qc_epoch_a: existing.qc_epoch,
                        qc_epoch_b: incoming_qc.qc_epoch,
                    },
                );
                match existing.tie_break_cmp(&incoming_qc) {
                    Ordering::Less => {
                        let old_epoch: u64 = existing.qc_epoch;
                        self.quarantine_buffer.quarantine(existing, self.current_view);
                        self.events.push(
                            ViewChangeEvent::QcQuarantined {
                                view,
                                qc_epoch: old_epoch,
                                quarantined_at_round: self.current_view,
                            },
                        );
                        self.events.push(
                            ViewChangeEvent::QcAccepted { view, qc_epoch: incoming_qc.qc_epoch },
                        );
                        self.accepted_qcs.insert(view, incoming_qc);
                        proof {
                            assert(self@.events =~= processed(s, qc).events);
                            assert(self@.accepted =~= processed(s, qc).accepted);
                        }
                        Ok(QcProcessOutcome::ConflictResolvedAccepted)
                    },
                    Ordering::Greater | Ordering::Equal => {
                        let new_epoch: u64 = incoming_qc.qc_epoch;
                        self.quarantine_buffer.quarantine(incoming_qc, self.current_view);
                        self.events.push(
                            ViewChangeEvent::QcQuarantined {
                                view,
                                qc_epoch: new_epoch,
                                quarantined_at_round: self.current_view,
                            },
                        );
                        assert(self@.events =~= processed(s, qc).events);
                        Ok(QcProcessOutcome::ConflictResolvedQuarantined)
                    },
                }
            },
            None => {
                self.events.push(
                    ViewChangeEvent::QcAccepted { view, qc_epoch: incoming_qc.qc_epoch },
                );
                self.accepted_qcs.insert(view, incoming_qc);
                assert(self@.accepted =~= processed(s, qc).accepted);
                Ok(QcProcessOutcome::AcceptedNew)
            },
        }
    }

    /// Advance the active view to `new_view` and run quarantine garbage collection.
    ///
    /// Purges and returns all conflicting QCs that have resided in quarantine for the full
    /// number of rounds.
    pub fn advance_view(&mut self, new_view: u64) -> (r: Vec<QC>)
        requires
            old(self).wf(),
        ensures
            final(self).wf(),
            r@.map_values(|q: QC| q@) == certificates(
                old(self)@.quarantine.filter(served(new_view)),
            ),
            final(self)@ == view_advanced(old(self)@, new_view, r@.len() as usize),
    {
        let ghost s = self@;
        self.current_view = new_view;
        let evicted: Vec<QC> = self.quarantine_buffer.gc(new_view);
        proof {
            let kept = self@.quarantine;
            assert forall|i: int| 0 <= i < kept.len() implies outranked(
                (#[trigger] kept[i]).qc,
                self@.accepted,
            ) by {
                lemma_filter_source(s.quarantine, serving(new_view), i);
                let j = choose|j: int| 0 <= j < s.quarantine.len() && s.quarantine[j] == kept[i];
                assert(outranked(s.quarantine[j].qc, s.accepted));
            }
        }
        if !evicted.is_empty() {
            self.events.push(
                ViewChangeEvent::QcGarbageCollected {
                    evicted_count: evicted.len(),
                    at_view: new_view,
                },
            );
        }
        self.events.push(ViewChangeEvent::ViewAdvanced { new_view });
        assert(self@.accepted == s.accepted);
        evicted
    }

    /// Look up the accepted canonical QC for a view.
    pub fn get_accepted_qc(&self, view: u64) -> (r: Option<&QC>)
        requires
            self.wf(),
        ensures
            r is Some <==> self@.accepted.dom().contains(view),
            r matches Some(qc) ==> qc@ == self@.accepted[view],
    {
        self.accepted_qcs.get(&view)
    }

    /// Returns a map of all accepted canonical QCs.
    pub fn accepted_qcs(&self) -> (r: &OrderedMap<u64, QC>)
        requires
            self.wf(),
        ensures
            r.wf(),
            accepted_model(r@) == self@.accepted,
    {
        &self.accepted_qcs
    }

    /// Returns `true` if `qc` is currently held in the quarantine buffer.
    pub fn is_quarantined(&self, qc: &QC) -> (r: bool)
        ensures
            r == holds(self@.quarantine, qc@),
    {
        self.quarantine_buffer.contains(qc)
    }

    /// Reference to the underlying [`QuarantineBuffer`].
    pub fn quarantine_buffer(&self) -> (r: &QuarantineBuffer)
        ensures
            r@ == self@.quarantine,
    {
        &self.quarantine_buffer
    }

    /// Drain and return all accumulated events.
    pub fn drain_events(&mut self) -> (r: Vec<ViewChangeEvent>)
        requires
            old(self).wf(),
        ensures
            final(self).wf(),
            r@ == old(self)@.events,
            final(self)@ == (ResolverState { events: Seq::empty(), ..old(self)@ }),
    {
        let mut drained: Vec<ViewChangeEvent> = Vec::new();
        core::mem::swap(&mut self.events, &mut drained);
        drained
    }

    /// Slice of all currently accumulated events without draining.
    pub fn events(&self) -> (r: &[ViewChangeEvent])
        ensures
            r@ == self@.events,
    {
        self.events.as_slice()
    }
}

/// Helper function to create a conflict detection event directly.
pub fn create_conflict_event(view: u64, qc_epoch_a: u64, qc_epoch_b: u64) -> (r: QcConflictDetected)
    ensures
        r == (QcConflictDetected { view, qc_epoch_a, qc_epoch_b }),
{
    QcConflictDetected { view, qc_epoch_a, qc_epoch_b }
}

/// The epochs of successive proposals are one apart, starting one above the epoch that stands; a
/// proposal without signers, or beyond the last epoch, is refused and changes nothing.
pub proof fn law_proposals_take_the_next_epoch(
    s: ResolverState,
    view: u64,
    block_hash: BlockHash,
    signers: Vec<PublicKey>,
    signature: AggregateSignature,
)
    ensures
        ({
            let answer = proposal_result(s, view, block_hash, signers, signature);
            let t = proposal_created(s, answer);
            &&& answer == Err::<QC, _>(ViewChangeError::EmptySigners) <==> signers@.len() == 0
            &&& answer == Err::<QC, _>(ViewChangeError::EpochOverflow) <==> signers@.len() > 0
                && s.current_qc_epoch == u64::MAX
            &&& answer is Err ==> t == s
            &&& answer matches Ok(qc) ==> {
                &&& qc.view == view
                &&& qc.qc_epoch == s.current_qc_epoch + 1
                &&& qc.block_hash == block_hash
                &&& qc.signers == signers
                &&& qc.signature == signature
                &&& t.current_qc_epoch == s.current_qc_epoch + 1
                &&& t.current_view == s.current_view
                &&& t.accepted == s.accepted
                &&& t.quarantine == s.quarantine
                &&& t.events == s.events
            }
        }),
{
}

/// The first certificate of a view is accepted and reported; the same one again changes nothing. A
/// different one is a conflict: it is reported with both epochs, then the loser as quarantined in
/// the round that stands, then the new one as accepted if it won.
pub proof fn law_certificates_are_reported(s: ResolverState, qc: QcModel)
    ensures
        ({
            let t = processed(s, qc);
            let outcome = process_outcome(s, qc);
            let n = s.events.len() as int;
            let known = s.accepted.dom().contains(qc.view);
            let existing = s.accepted[qc.view];
            let wins = beats(qc, existing);
            &&& outcome == QcProcessOutcome::AcceptedNew <==> !known
            &&& outcome == QcProcessOutcome::AlreadyAccepted <==> known && existing == qc
            &&& outcome == QcProcessOutcome::ConflictResolvedAccepted <==> known && existing != qc
                && wins
            &&& outcome == QcProcessOutcome::ConflictResolvedQuarantined <==> known && existing
                != qc && !wins
            &&& t.current_view == s.current_view
            &&& t.current_qc_epoch == s.current_qc_epoch
            &&& forall|i: int| 0 <= i < n ==> #[trigger] t.events[i] == s.events[i]
            &&& !known ==> {
                &&& t.quarantine == s.quarantine
                &&& t.events.len() == n + 1
                &&& t.events[n] == (ViewChangeEvent::QcAccepted {
                    view: qc.view,
                    qc_epoch: qc.qc_epoch,
                })
            }
            &&& known && existing == qc ==> t == s
            &&& known && existing != qc ==> {
                &&& t.events.len() == n + (if wins {
                    3int
                } else {
                    2int
                })
                &&& t.events[n] == (ViewChangeEvent::QcConflictDetected {
                    view: qc.view,
                    qc_epoch_a: existing.qc_epoch,
                    qc_epoch_b: qc.qc_epoch,
                })
                &&& t.events[n + 1] == (ViewChangeEvent::QcQuarantined {
                    view: qc.view,
                    qc_epoch: if wins {
                        existing.qc_epoch
                    } else {
                        qc.qc_epoch
                    },
                    quarantined_at_round: s.current_view,
                })
                &&& wins ==> t.events[n + 2] == (ViewChangeEvent::QcAccepted {
                    view: qc.view,
                    qc_epoch: qc.qc_epoch,
                })
                &&& t.quarantine == with_quarantined(
                    s.quarantine,
                    if wins {
                        existing
                    } else {
                        qc
                    },
                    s.current_view,
                )
            }
        }),
{
}

/// Moving on sets the view and lets go of the certificates that came in two rounds ago or earlier,
/// and of no others; their number is reported if there are any, and then the new view. What is
/// accepted stays.
pub proof fn law_advancing_lets_go_after_two_rounds(
    s: ResolverState,
    new_view: u64,
    evicted: usize,
    e: HeldQc,
)
    requires
        s.quarantine.contains(e),
    ensures
        ({
            let t = view_advanced(s, new_view, evicted);
            let n = s.events.len() as int;
            &&& t.current_view == new_view
            &&& t.current_qc_epoch == s.current_qc_epoch
            &&& t.accepted == s.accepted
            &&& t.quarantine.contains(e) <==> new_view < e.since + 2
            &&& forall|i: int| 0 <= i < n ==> #[trigger] t.events[i] == s.events[i]
            &&& t.events.last() == (ViewChangeEvent::ViewAdvanced { new_view })
            &&& evicted == 0 ==> t.events.len() == n + 1
            &&& evicted > 0 ==> t.events.len() == n + 2 && t.events[n] == (
            ViewChangeEvent::QcGarbageCollected { evicted_count: evicted, at_view: new_view })
        }),
{
    law_quarantine_lasts_two_rounds(s.quarantine, e, new_view);
}

} // verus!
