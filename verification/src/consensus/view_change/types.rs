//! Core data structures and tie-breaking primitives for view-change certificates.

use std::cmp::Ordering;

use vstd::prelude::*;

use crate::byte_order::{
    append, arrays_equal, bytes_before, lemma_array_view_injective, lemma_bytes_before_asymmetric,
    lemma_bytes_before_irreflexive, lemma_bytes_before_total, lemma_bytes_before_transitive,
    slice_before,
};
use crate::crypto::sha256::{sha256, sha256_digest};
use crate::ordered_map::OrderedMap;
use crate::seqs::{bytes_ascend, joined, lemma_ascending_list_unique};

verus! {

/// Number of view-change rounds conflicting QCs remain in quarantine before GC.
pub const QUARANTINE_ROUND_LIMIT: u64 = 2;

/// Maximum number of view-change rounds to guarantee deterministic convergence after partition
/// heal.
pub const CONVERGENCE_ROUND_LIMIT: u64 = 3;

/// A 32-byte public key identifier representing a validator in the consensus committee.
pub type PublicKey = [u8; 32];

/// A 32-byte hash identifying a block proposal or payload.
pub type BlockHash = [u8; 32];

/// A 96-byte BLS aggregate signature.
pub type AggregateSignature = [u8; 96];

/// A quorum certificate certifying 2/3+1 validator agreement for a view.
#[derive(Debug, Eq, PartialEq)]
pub struct QuorumCertificate {
    /// Consensus view number this certificate applies to.
    pub view: u64,
    /// Monotonically incrementing proposal epoch counter.
    pub qc_epoch: u64,
    /// Digest of the block or payload certified by this QC.
    pub block_hash: BlockHash,
    /// Set of public keys of validators that signed this certificate.
    pub signers: Vec<PublicKey>,
    /// Aggregated BLS signature across all signers.
    pub signature: AggregateSignature,
}

/// Type alias for [`QuorumCertificate`].
pub type QC = QuorumCertificate;

/// What a certificate says.
pub struct QcModel {
    pub view: u64,
    pub qc_epoch: u64,
    pub block_hash: BlockHash,
    pub signers: Seq<PublicKey>,
    pub signature: AggregateSignature,
}

impl View for QuorumCertificate {
    type V = QcModel;

    open spec fn view(&self) -> QcModel {
        QcModel {
            view: self.view,
            qc_epoch: self.qc_epoch,
            block_hash: self.block_hash,
            signers: self.signers@,
            signature: self.signature,
        }
    }
}

impl Clone for QuorumCertificate {
    fn clone(&self) -> (r: Self)
        ensures
            r@ == self@,
    {
        let mut signers: Vec<PublicKey> = Vec::new();
        let mut i: usize = 0;
        while i < self.signers.len()
            invariant
                i <= self.signers@.len(),
                signers@ == self.signers@.take(i as int),
            decreases self.signers@.len() - i,
        {
            signers.push(self.signers[i]);
            i = i + 1;
            assert(signers@ =~= self.signers@.take(i as int));
        }
        assert(signers@ =~= self.signers@);
        QuorumCertificate {
            view: self.view,
            qc_epoch: self.qc_epoch,
            block_hash: self.block_hash,
            signers,
            signature: self.signature,
        }
    }
}

/// The public keys that occur in a list, as byte strings.
pub open spec fn key_set(keys: Seq<PublicKey>) -> Set<Seq<u8>> {
    Set::new(|k: Seq<u8>| exists|i: int| 0 <= i < keys.len() && #[trigger] keys[i]@ == k)
}

/// The elements of a set of byte strings in ascending order, each once.
pub open spec fn sorted_list(keys: Set<Seq<u8>>) -> Seq<Seq<u8>> {
    choose|s: Seq<Seq<u8>>|
        bytes_ascend(s) && forall|k: Seq<u8>| #[trigger] s.contains(k) <==> keys.contains(k)
}

/// The SHA-256 hash over the sorted, deduplicated public-key set.
pub open spec fn key_set_hash(keys: Seq<PublicKey>) -> Seq<u8> {
    sha256_digest(joined(sorted_list(key_set(keys))))
}

/// `a` wins the tie-break over `b`.
pub open spec fn beats(a: QcModel, b: QcModel) -> bool {
    let ha = key_set_hash(a.signers);
    let hb = key_set_hash(b.signers);
    a.qc_epoch > b.qc_epoch || (a.qc_epoch == b.qc_epoch && (bytes_before(hb, ha) || (ha == hb && (
    bytes_before(b.block_hash@, a.block_hash@) || (a.block_hash == b.block_hash && bytes_before(
        b.signature@,
        a.signature@,
    ))))))
}

/// Nothing that the tie-break looks at tells `a` and `b` apart.
pub open spec fn ties(a: QcModel, b: QcModel) -> bool {
    &&& a.qc_epoch == b.qc_epoch
    &&& key_set_hash(a.signers) == key_set_hash(b.signers)
    &&& a.block_hash == b.block_hash
    &&& a.signature == b.signature
}

/// The certificate that stays canonical when `incoming` meets `existing`.
pub open spec fn preferred(existing: QcModel, incoming: QcModel) -> QcModel {
    if beats(incoming, existing) {
        incoming
    } else {
        existing
    }
}

/// The certificate that is canonical after all of `qcs` have come in, in this order.
pub open spec fn winner(qcs: Seq<QcModel>) -> QcModel
    recommends
        qcs.len() > 0,
    decreases qcs.len(),
{
    if qcs.len() <= 1 {
        qcs[0]
    } else {
        preferred(winner(qcs.drop_last()), qcs.last())
    }
}

/// The hash of a public-key set does not depend on the order of the signers, nor on repetitions.
pub proof fn law_key_set_hash_order_independent(a: Seq<PublicKey>, b: Seq<PublicKey>)
    requires
        key_set(a) == key_set(b),
    ensures
        key_set_hash(a) == key_set_hash(b),
{
}

/// Of two certificates exactly one of these holds: the first wins, the second wins, or they tie.
pub proof fn law_tie_break_total(a: QcModel, b: QcModel)
    ensures
        beats(a, b) || beats(b, a) || ties(a, b),
        !(beats(a, b) && beats(b, a)),
        !(beats(a, b) && ties(a, b)),
{
    let ha = key_set_hash(a.signers);
    let hb = key_set_hash(b.signers);
    lemma_bytes_before_total(ha, hb);
    lemma_bytes_before_total(a.block_hash@, b.block_hash@);
    lemma_bytes_before_total(a.signature@, b.signature@);
    lemma_array_view_injective(a.block_hash, b.block_hash);
    lemma_array_view_injective(a.signature, b.signature);
    if bytes_before(ha, hb) {
        lemma_bytes_before_asymmetric(ha, hb);
    }
    if bytes_before(hb, ha) {
        lemma_bytes_before_asymmetric(hb, ha);
    }
    if bytes_before(a.block_hash@, b.block_hash@) {
        lemma_bytes_before_asymmetric(a.block_hash@, b.block_hash@);
    }
    if bytes_before(b.block_hash@, a.block_hash@) {
        lemma_bytes_before_asymmetric(b.block_hash@, a.block_hash@);
    }
    if bytes_before(a.signature@, b.signature@) {
        lemma_bytes_before_asymmetric(a.signature@, b.signature@);
    }
    if bytes_before(b.signature@, a.signature@) {
        lemma_bytes_before_asymmetric(b.signature@, a.signature@);
    }
}

/// Winning the tie-break is transitive.
pub proof fn law_tie_break_transitive(a: QcModel, b: QcModel, c: QcModel)
    requires
        beats(a, b),
        beats(b, c),
    ensures
        beats(a, c),
{
    let ha = key_set_hash(a.signers);
    let hb = key_set_hash(b.signers);
    let hc = key_set_hash(c.signers);
    if bytes_before(hc, hb) && bytes_before(hb, ha) {
        lemma_bytes_before_transitive(hc, hb, ha);
    }
    if bytes_before(c.block_hash@, b.block_hash@) && bytes_before(b.block_hash@, a.block_hash@) {
        lemma_bytes_before_transitive(c.block_hash@, b.block_hash@, a.block_hash@);
    }
    if bytes_before(c.signature@, b.signature@) && bytes_before(b.signature@, a.signature@) {
        lemma_bytes_before_transitive(c.signature@, b.signature@, a.signature@);
    }
}

/// The canonical certificate is one of those that came in, and none of them beats it.
pub proof fn law_winner_is_unbeaten(qcs: Seq<QcModel>)
    requires
        qcs.len() > 0,
    ensures
        qcs.contains(winner(qcs)),
        forall|i: int| 0 <= i < qcs.len() ==> !beats(#[trigger] qcs[i], winner(qcs)),
    decreases qcs.len(),
{
    if qcs.len() == 1 {
        law_tie_break_total(qcs[0], qcs[0]);
        assert(qcs.contains(qcs[0]));
    } else {
        let init = qcs.drop_last();
        let last = qcs.last();
        law_winner_is_unbeaten(init);
        let w = winner(init);
        let k = choose|k: int| 0 <= k < init.len() && init[k] == w;
        assert(qcs[k] == w);
        assert(qcs[qcs.len() - 1] == last);
        law_tie_break_total(last, last);
        assert forall|i: int| 0 <= i < qcs.len() implies !beats(#[trigger] qcs[i], winner(qcs)) by {
            if i < qcs.len() - 1 {
                assert(init[i] == qcs[i]);
                if beats(last, w) && beats(qcs[i], last) {
                    law_tie_break_transitive(qcs[i], last, w);
                }
            }
        }
    }
}

/// Nodes that have seen the same certificates, in whatever order and however often, hold
/// canonical certificates that the tie-break cannot tell apart; where no two of the certificates
/// tie, they hold the same one.
pub proof fn law_convergence(a: Seq<QcModel>, b: Seq<QcModel>)
    requires
        a.len() > 0,
        b.len() > 0,
        forall|q: QcModel| a.contains(q) <==> b.contains(q),
    ensures
        ties(winner(a), winner(b)),
        (forall|i: int, j: int|
            0 <= i < a.len() && 0 <= j < a.len() && ties(#[trigger] a[i], #[trigger] a[j]) ==> a[i]
                == a[j]) ==> winner(a) == winner(b),
{
    law_winner_is_unbeaten(a);
    law_winner_is_unbeaten(b);
    assert(b.contains(winner(a)));
    assert(a.contains(winner(b)));
    let i = choose|i: int| 0 <= i < a.len() && a[i] == winner(b);
    let j = choose|j: int| 0 <= j < b.len() && b[j] == winner(a);
    assert(!beats(a[i], winner(a)));
    assert(!beats(b[j], winner(b)));
    law_tie_break_total(winner(a), winner(b));
    let k = choose|k: int| 0 <= k < a.len() && a[k] == winner(a);
    assert(ties(a[k], a[i]));
}

/// Whether two lists hold the same keys in the same order.
fn keys_equal(a: &Vec<PublicKey>, b: &Vec<PublicKey>) -> (r: bool)
    ensures
        r == (a@ == b@),
{
    if a.len() != b.len() {
        return false;
    }
    let mut i: usize = 0;
    while i < a.len()
        invariant
            i <= a@.len(),
            a@.len() == b@.len(),
            forall|j: int| 0 <= j < i ==> a@[j] == b@[j],
        decreases a@.len() - i,
    {
        if !arrays_equal(&a[i], &b[i]) {
            return false;
        }
        i = i + 1;
    }
    assert(a@ =~= b@);
    true
}

impl QuorumCertificate {
    /// Construct a new [`QuorumCertificate`].
    pub fn new(
        view: u64,
        qc_epoch: u64,
        block_hash: BlockHash,
        signers: Vec<PublicKey>,
        signature: AggregateSignature,
    ) -> (r: Self)
        ensures
            r == (QuorumCertificate { view, qc_epoch, block_hash, signers, signature }),
    {
        QuorumCertificate { view, qc_epoch, block_hash, signers, signature }
    }

    /// The deterministic SHA-256 hash over the sorted, deduplicated public-key set.
    pub fn public_key_set_hash(&self) -> (r: [u8; 32])
        ensures
            r@ == key_set_hash(self@.signers),
    {
        compute_public_key_set_hash(self.signers.as_slice())
    }

    /// Whether two certificates say the same in every field.
    pub fn same_as(&self, other: &Self) -> (r: bool)
        ensures
            r == (self@ == other@),
    {
        self.view == other.view && self.qc_epoch == other.qc_epoch && arrays_equal(
            &self.block_hash,
            &other.block_hash,
        ) && keys_equal(&self.signers, &other.signers) && arrays_equal(
            &self.signature,
            &other.signature,
        )
    }

    /// Compare two QCs for the same view using deterministic tie-breaking rules.
    ///
    /// Order of precedence, the higher value being `Greater` (it wins): `qc_epoch`, the hash of
    /// the public-key set, `block_hash`, `signature`.
    pub fn tie_break_cmp(&self, other: &Self) -> (r: Ordering)
        ensures
            match r {
                Ordering::Less => beats(other@, self@),
                Ordering::Equal => ties(self@, other@),
                Ordering::Greater => beats(self@, other@),
            },
    {
        proof {
            law_tie_break_total(self@, other@);
        }
        if self.qc_epoch < other.qc_epoch {
            return Ordering::Less;
        }
        if self.qc_epoch > other.qc_epoch {
            return Ordering::Greater;
        }
        let own_hash: [u8; 32] = self.public_key_set_hash();
        let other_hash: [u8; 32] = other.public_key_set_hash();
        if slice_before(own_hash.as_slice(), other_hash.as_slice()) {
            return Ordering::Less;
        }
        if slice_before(other_hash.as_slice(), own_hash.as_slice()) {
            return Ordering::Greater;
        }
        proof {
            lemma_bytes_before_total(own_hash@, other_hash@);
        }
        if slice_before(self.block_hash.as_slice(), other.block_hash.as_slice()) {
            return Ordering::Less;
        }
        if slice_before(other.block_hash.as_slice(), self.block_hash.as_slice()) {
            return Ordering::Greater;
        }
        proof {
            lemma_bytes_before_total(self.block_hash@, other.block_hash@);
            lemma_array_view_injective(self.block_hash, other.block_hash);
        }
        if slice_before(self.signature.as_slice(), other.signature.as_slice()) {
            return Ordering::Less;
        }
        if slice_before(other.signature.as_slice(), self.signature.as_slice()) {
            return Ordering::Greater;
        }
        Ordering::Equal
    }

    /// Returns `true` if `other` conflicts with `self` for the same view (same view, but
    /// divergent `block_hash`, `qc_epoch`, `signers`, or `signature`).
    pub fn is_conflict(&self, other: &Self) -> (r: bool)
        ensures
            r == (self@.view == other@.view && self@ != other@),
    {
        self.view == other.view && !self.same_as(other)
    }
}

/// Compute the SHA-256 hash of a list of public keys after lexicographical sorting and
/// deduplication.
pub fn compute_public_key_set_hash(keys: &[PublicKey]) -> (r: [u8; 32])
    ensures
        r@ == key_set_hash(keys@),
{
    let mut sorted: OrderedMap<PublicKey, ()> = OrderedMap::new();
    let mut i: usize = 0;
    while i < keys.len()
        invariant
            i <= keys@.len(),
            sorted.wf(),
            forall|k: Seq<u8>|
                sorted@.dom().contains(k) <==> exists|j: int|
                    0 <= j < i && #[trigger] keys@[j]@ == k,
        decreases keys@.len() - i,
    {
        let ghost before = sorted@;
        sorted.insert(keys[i], ());
        i = i + 1;
        proof {
            assert forall|k: Seq<u8>|
                sorted@.dom().contains(k) <==> exists|j: int|
                    0 <= j < i && #[trigger] keys@[j]@ == k by {
                if before.dom().contains(k) {
                    let j = choose|j: int| 0 <= j < i - 1 && #[trigger] keys@[j]@ == k;
                    assert(keys@[j]@ == k);
                }
                if k == keys@[i - 1]@ {
                    assert(keys@[i - 1]@ == k);
                }
            }
        }
    }
    let ghost listed = Seq::new(sorted.count(), |j: int| sorted.entries()[j].0);
    proof {
        sorted.lemma_ascending();
        assert(bytes_ascend(listed)) by {
            assert forall|a: int, b: int| 0 <= a < b < listed.len() implies bytes_before(
                #[trigger] listed[a],
                #[trigger] listed[b],
            ) by {
                assert(listed[a] == sorted.entries()[a].0);
                assert(listed[b] == sorted.entries()[b].0);
            }
        }
        assert forall|k: Seq<u8>| #[trigger] listed.contains(k) <==> key_set(keys@).contains(k) by {
            if listed.contains(k) {
                let j = choose|j: int| 0 <= j < listed.len() && listed[j] == k;
                assert(sorted.entries()[j].0 == k);
                assert(sorted@.dom().contains(k));
            }
            if key_set(keys@).contains(k) {
                assert(sorted@.dom().contains(k));
                let j = crate::ordered_map::place_of(sorted.entries(), k);
                assert(listed[j] == k);
            }
        }
        let canonical = sorted_list(key_set(keys@));
        assert(bytes_ascend(canonical) && forall|k: Seq<u8>| #[trigger]
            canonical.contains(k) <==> key_set(keys@).contains(k));
        assert forall|k: Seq<u8>| listed.contains(k) <==> canonical.contains(k) by {
            assert(listed.contains(k) <==> key_set(keys@).contains(k));
            assert(canonical.contains(k) <==> key_set(keys@).contains(k));
        }
        lemma_ascending_list_unique(listed, canonical);
    }
    let mut buf: Vec<u8> = Vec::new();
    let mut i: usize = 0;
    let n: usize = sorted.len();
    assert(joined(listed.take(0)) =~= Seq::<u8>::empty());
    while i < n
        invariant
            i <= n,
            n == sorted.count(),
            sorted.wf(),
            listed == Seq::new(sorted.count(), |j: int| sorted.entries()[j].0),
            buf@ == joined(listed.take(i as int)),
        decreases n - i,
    {
        append(&mut buf, sorted.key_at(i).as_slice());
        proof {
            assert(listed.take(i + 1).drop_last() =~= listed.take(i as int));
            assert(listed.take(i + 1).last() == listed[i as int]);
        }
        i = i + 1;
    }
    assert(listed.take(n as int) =~= listed);
    sha256(buf.as_slice())
}

/// Observability event emitted when a QC conflict is detected during view change.
#[derive(Clone, Copy, Debug, Eq, PartialEq)]
pub struct QcConflictDetected {
    /// Consensus view in which the conflict occurred.
    pub view: u64,
    /// The `qc_epoch` of the first conflicting QC.
    pub qc_epoch_a: u64,
    /// The `qc_epoch` of the second conflicting QC.
    pub qc_epoch_b: u64,
}

/// Events emitted during view change and QC processing for telemetry and monitoring.
#[derive(Clone, Debug, Eq, PartialEq)]
pub enum ViewChangeEvent {
    /// Divergent QCs detected for the same view.
    QcConflictDetected {
        /// The view where conflict was observed.
        view: u64,
        /// `qc_epoch` of the active/existing QC.
        qc_epoch_a: u64,
        /// `qc_epoch` of the incoming/competing QC.
        qc_epoch_b: u64,
    },
    /// A new QC was accepted as canonical for a view.
    QcAccepted {
        /// The view number.
        view: u64,
        /// The `qc_epoch` of the accepted QC.
        qc_epoch: u64,
    },
    /// A losing conflicting QC was placed into the quarantine buffer.
    QcQuarantined {
        /// The view number.
        view: u64,
        /// The `qc_epoch` of the quarantined QC.
        qc_epoch: u64,
        /// View-change round when placed in quarantine.
        quarantined_at_round: u64,
    },
    /// Expired QCs were purged from quarantine by garbage collection.
    QcGarbageCollected {
        /// Number of QCs evicted during this GC cycle.
        evicted_count: usize,
        /// View at which GC ran.
        at_view: u64,
    },
    /// View was advanced.
    ViewAdvanced {
        /// The new active view.
        new_view: u64,
    },
}

/// Errors returned by view change and QC processing.
#[derive(Clone, Copy, Debug, Eq, PartialEq)]
pub enum ViewChangeError {
    /// QC view is older than the current view-change window.
    StaleView {
        /// View on the incoming QC.
        qc_view: u64,
        /// Current active view.
        current_view: u64,
    },
    /// Incoming QC has zero signers.
    EmptySigners,
    /// Monotonic epoch counter overflow.
    EpochOverflow,
}

/// The later epoch wins; in the same epoch the larger hash of the signers, then the larger block
/// hash, then the larger signature. The views do not matter.
pub proof fn law_order_of_preference(a: QcModel, b: QcModel)
    ensures
        ({
            let ha = key_set_hash(a.signers);
            let hb = key_set_hash(b.signers);
            &&& a.qc_epoch != b.qc_epoch ==> (beats(a, b) <==> a.qc_epoch > b.qc_epoch)
            &&& a.qc_epoch == b.qc_epoch && ha != hb ==> (beats(a, b) <==> bytes_before(hb, ha))
            &&& a.qc_epoch == b.qc_epoch && ha == hb && a.block_hash != b.block_hash ==> (beats(
                a,
                b,
            ) <==> bytes_before(b.block_hash@, a.block_hash@))
            &&& a.qc_epoch == b.qc_epoch && ha == hb && a.block_hash == b.block_hash ==> (beats(
                a,
                b,
            ) <==> bytes_before(b.signature@, a.signature@))
        }),
{
    let ha = key_set_hash(a.signers);
    lemma_bytes_before_irreflexive(ha);
    lemma_bytes_before_irreflexive(a.block_hash@);
}

/// The hash of signers listed in strictly ascending order is the digest of their keys, one behind
/// the other.
pub proof fn law_key_set_hash_of_ascending_keys(keys: Seq<PublicKey>)
    requires
        forall|i: int, j: int|
            0 <= i < j < keys.len() ==> bytes_before((#[trigger] keys[i])@, (#[trigger] keys[j])@),
    ensures
        key_set_hash(keys) == sha256_digest(joined(keys.map_values(|k: PublicKey| k@))),
{
    let listed = keys.map_values(|k: PublicKey| k@);
    let set = key_set(keys);
    assert forall|x: Seq<u8>| #[trigger] listed.contains(x) <==> set.contains(x) by {
        if listed.contains(x) {
            let i = choose|i: int| 0 <= i < listed.len() && listed[i] == x;
            assert(keys[i]@ == x);
        }
        if set.contains(x) {
            let i = choose|i: int| 0 <= i < keys.len() && #[trigger] keys[i]@ == x;
            assert(listed[i] == x);
        }
    }
    assert(bytes_ascend(listed));
    lemma_ascending_list_unique(listed, sorted_list(set));
}

/// Certificates are quarantined for two rounds, and replicas agree within three.
pub proof fn law_limits_in_numbers()
    ensures
        QUARANTINE_ROUND_LIMIT == 2,
        CONVERGENCE_ROUND_LIMIT == 3,
{
}

} // verus!
