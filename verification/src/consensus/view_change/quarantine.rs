//! Quarantine buffer for conflicting quorum certificates.
//!
//! The losing certificates of a partition resolution remain quarantined for
//! [`QUARANTINE_ROUND_LIMIT`] view-change rounds before they are garbage collected. This prevents
//! immediate reuse or flapping while preserving evidence of the divergence.

use vstd::prelude::*;

use crate::consensus::view_change::types::{
    QcModel, QuorumCertificate, QC, QUARANTINE_ROUND_LIMIT,
};
use crate::seqs::{lemma_filter_step, lemma_map_values_push};

verus! {

/// An entry in the quarantine buffer holding a conflicting QC and its quarantine timestamp.
#[derive(Clone, Debug, Eq, PartialEq)]
pub struct QuarantinedQc {
    /// The conflicting quorum certificate.
    pub qc: QC,
    /// The view-change round / view at which this QC entered quarantine.
    pub quarantined_at_round: u64,
}

/// What a quarantine entry says.
pub struct HeldQc {
    pub qc: QcModel,
    pub since: u64,
}

impl View for QuarantinedQc {
    type V = HeldQc;

    open spec fn view(&self) -> HeldQc {
        HeldQc { qc: self.qc@, since: self.quarantined_at_round }
    }
}

/// A buffer holding conflicting QCs for [`QUARANTINE_ROUND_LIMIT`] rounds before garbage
/// collection.
#[derive(Clone, Debug, Eq, PartialEq)]
pub struct QuarantineBuffer {
    entries: Vec<QuarantinedQc>,
}

/// The certificate is among those held.
pub open spec fn holds(held: Seq<HeldQc>, qc: QcModel) -> bool {
    exists|i: int| 0 <= i < held.len() && #[trigger] held[i].qc == qc
}

/// What is held after `qc` has been put in quarantine at `round`.
pub open spec fn with_quarantined(held: Seq<HeldQc>, qc: QcModel, round: u64) -> Seq<HeldQc> {
    if holds(held, qc) {
        held
    } else {
        held.push(HeldQc { qc, since: round })
    }
}

/// The entry has resided in quarantine for the full number of rounds.
pub open spec fn served(round: u64) -> spec_fn(HeldQc) -> bool {
    |e: HeldQc| round - e.since >= QUARANTINE_ROUND_LIMIT
}

/// The entry stays in quarantine.
pub open spec fn serving(round: u64) -> spec_fn(HeldQc) -> bool {
    |e: HeldQc| round - e.since < QUARANTINE_ROUND_LIMIT
}

/// The certificates of some entries, in their order.
pub open spec fn certificates(held: Seq<HeldQc>) -> Seq<QcModel> {
    held.map_values(|e: HeldQc| e.qc)
}

/// A certificate stays in quarantine for the full number of rounds and no longer: a collection
/// keeps it before that and takes it out from then on.
pub proof fn law_quarantine_lasts_its_rounds(held: Seq<HeldQc>, e: HeldQc, round: u64)
    requires
        held.contains(e),
    ensures
        held.filter(serving(round)).contains(e) <==> round < e.since + QUARANTINE_ROUND_LIMIT,
        held.filter(served(round)).contains(e) <==> round >= e.since + QUARANTINE_ROUND_LIMIT,
{
    let i = choose|i: int| 0 <= i < held.len() && held[i] == e;
    if serving(round)(e) {
        held.lemma_filter_contains(serving(round), i);
    } else {
        held.lemma_filter_contains(served(round), i);
    }
    if held.filter(serving(round)).contains(e) {
        let j = choose|j: int|
            0 <= j < held.filter(serving(round)).len() && held.filter(serving(round))[j] == e;
        held.lemma_filter_pred(serving(round), j);
    }
    if held.filter(served(round)).contains(e) {
        let j = choose|j: int|
            0 <= j < held.filter(served(round)).len() && held.filter(served(round))[j] == e;
        held.lemma_filter_pred(served(round), j);
    }
}

impl View for QuarantineBuffer {
    type V = Seq<HeldQc>;

    closed spec fn view(&self) -> Seq<HeldQc> {
        self.entries@.map_values(|e: QuarantinedQc| e@)
    }
}

impl Default for QuarantineBuffer {
    fn default() -> (r: Self)
        ensures
            r@ == Seq::<HeldQc>::empty(),
    {
        Self::new()
    }
}

impl QuarantineBuffer {
    /// Create an empty [`QuarantineBuffer`].
    pub fn new() -> (r: Self)
        ensures
            r@ == Seq::<HeldQc>::empty(),
    {
        let r = QuarantineBuffer { entries: Vec::new() };
        assert(r@ =~= Seq::<HeldQc>::empty());
        r
    }

    /// Place a conflicting QC into quarantine at `current_round`.
    ///
    /// If the identical QC is already quarantined, this is an idempotent no-op and returns
    /// `false`. Otherwise, inserts the new entry and returns `true`.
    pub fn quarantine(&mut self, qc: QC, current_round: u64) -> (r: bool)
        ensures
            r == !holds(old(self)@, qc@),
            final(self)@ == with_quarantined(old(self)@, qc@, current_round),
    {
        if self.contains(&qc) {
            return false;
        }
        proof {
            lemma_map_values_push(
                self.entries@,
                QuarantinedQc { qc, quarantined_at_round: current_round },
                |e: QuarantinedQc| e@,
            );
        }
        self.entries.push(QuarantinedQc { qc, quarantined_at_round: current_round });
        true
    }

    /// Run garbage collection for `current_round`.
    ///
    /// Evicts all quarantined QCs that have resided in quarantine for at least
    /// [`QUARANTINE_ROUND_LIMIT`] view-change rounds and returns them.
    pub fn gc(&mut self, current_round: u64) -> (r: Vec<QC>)
        ensures
            final(self)@ == old(self)@.filter(serving(current_round)),
            r@.map_values(|q: QC| q@) == certificates(old(self)@.filter(served(current_round))),
    {
        let ghost all = self.entries@;
        let ghost model = self@;
        let mut evicted: Vec<QC> = Vec::new();
        let mut i: usize = 0;
        let ghost mut k: int = 0;
        proof {
            reveal(Seq::filter);
            assert(model.take(0) =~= Seq::<HeldQc>::empty());
            assert(self@ =~= model.take(0).filter(serving(current_round)) + model.skip(0));
            assert(evicted@.map_values(|q: QC| q@) =~= certificates(
                model.take(0).filter(served(current_round)),
            ));
        }
        while i < self.entries.len()
            invariant
                0 <= k <= model.len(),
                self@.len() == self.entries@.len(),
                i == model.take(k).filter(serving(current_round)).len(),
                self@ == model.take(k).filter(serving(current_round)) + model.skip(k),
                evicted@.map_values(|q: QC| q@) == certificates(
                    model.take(k).filter(served(current_round)),
                ),
            decreases model.len() - k,
        {
            proof {
                lemma_filter_step(model, k, serving(current_round));
                lemma_filter_step(model, k, served(current_round));
                assert(self@[i as int] == model[k]);
                assert(self.entries@[i as int]@ == model[k]);
            }
            let since: u64 = self.entries[i].quarantined_at_round;
            let rounds_in_quarantine: u64 = current_round.saturating_sub(since);
            if rounds_in_quarantine >= QUARANTINE_ROUND_LIMIT {
                let ghost before = self@;
                let ghost gone = evicted@;
                let entry: QuarantinedQc = self.entries.remove(i);
                proof {
                    assert(self@ =~= before.remove(i as int));
                    assert(self@ =~= model.take(k + 1).filter(serving(current_round)) + model.skip(
                        k + 1,
                    ));
                    lemma_map_values_push(gone, entry.qc, |q: QC| q@);
                    lemma_map_values_push(
                        model.take(k).filter(served(current_round)),
                        model[k],
                        |e: HeldQc| e.qc,
                    );
                }
                evicted.push(entry.qc);
            } else {
                proof {
                    assert(self@ =~= model.take(k + 1).filter(serving(current_round)) + model.skip(
                        k + 1,
                    ));
                }
                i = i + 1;
            }
            proof {
                k = k + 1;
            }
        }
        proof {
            assert(model.skip(k).len() == 0);
            assert(model.take(k) =~= model);
            assert(self@ =~= model.filter(serving(current_round)));
        }
        evicted
    }

    /// Returns `true` if `qc` is currently in the quarantine buffer.
    pub fn contains(&self, qc: &QuorumCertificate) -> (r: bool)
        ensures
            r == holds(self@, qc@),
    {
        let mut i: usize = 0;
        while i < self.entries.len()
            invariant
                i <= self.entries@.len(),
                forall|j: int| 0 <= j < i ==> self.entries@[j].qc@ != qc@,
            decreases self.entries@.len() - i,
        {
            if self.entries[i].qc.same_as(qc) {
                assert(self@[i as int].qc == qc@);
                return true;
            }
            i = i + 1;
        }
        assert forall|j: int| 0 <= j < self@.len() implies #[trigger] self@[j].qc != qc@ by {
            assert(self.entries@[j].qc@ != qc@);
        }
        false
    }

    /// Number of QCs currently held in quarantine.
    pub fn len(&self) -> (r: usize)
        ensures
            r == self@.len(),
    {
        self.entries.len()
    }

    /// Whether the quarantine buffer is empty.
    pub fn is_empty(&self) -> (r: bool)
        ensures
            r == (self@.len() == 0),
    {
        self.entries.len() == 0
    }

    /// Slice of all currently quarantined entries.
    pub fn entries(&self) -> (r: &[QuarantinedQc])
        ensures
            r@.map_values(|e: QuarantinedQc| e@) == self@,
    {
        self.entries.as_slice()
    }

    /// Clears all entries from the quarantine buffer.
    pub fn clear(&mut self)
        ensures
            final(self)@ == Seq::<HeldQc>::empty(),
    {
        self.entries.clear();
        assert(self@ =~= Seq::<HeldQc>::empty());
    }
}

/// A certificate is held from the round it came in, and one that is held already is not taken in
/// again; the others keep their places.
pub proof fn law_quarantine_takes_in_once(held: Seq<HeldQc>, qc: QcModel, round: u64, later: u64)
    ensures
        ({
            let known = exists|i: int| 0 <= i < held.len() && #[trigger] held[i].qc == qc;
            let t = with_quarantined(held, qc, round);
            &&& holds(held, qc) <==> known
            &&& known ==> t == held
            &&& !known ==> {
                &&& t.len() == held.len() + 1
                &&& t.last().qc == qc
                &&& t.last().since == round
                &&& forall|i: int| 0 <= i < held.len() ==> #[trigger] t[i] == held[i]
            }
            &&& holds(t, qc)
            &&& with_quarantined(t, qc, later) == t
        }),
{
    let t = with_quarantined(held, qc, round);
    if !holds(held, qc) {
        assert(t[held.len() as int].qc == qc);
    }
}

/// A certificate taken in at a round is held in that round and the next one, and let go from the
/// second round after it on. Nothing gets lost: every entry either stays or is let go.
pub proof fn law_quarantine_lasts_two_rounds(held: Seq<HeldQc>, e: HeldQc, round: u64)
    requires
        held.contains(e),
    ensures
        held.filter(serving(round)).contains(e) <==> round < e.since + 2,
        held.filter(served(round)).contains(e) <==> round >= e.since + 2,
        held.filter(serving(round)).len() + held.filter(served(round)).len() == held.len(),
{
    law_quarantine_lasts_its_rounds(held, e, round);
    lemma_none_lost(held, round);
}

proof fn lemma_none_lost(held: Seq<HeldQc>, round: u64)
    ensures
        held.filter(serving(round)).len() + held.filter(served(round)).len() == held.len(),
    decreases held.len(),
{
    reveal(Seq::filter);
    if held.len() > 0 {
        lemma_none_lost(held.drop_last(), round);
    }
}

} // verus!
