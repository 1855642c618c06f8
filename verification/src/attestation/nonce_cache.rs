//! Recent nonce deduplication cache with epoch-based expiry.
//!
//! Each entry records the epoch at which the nonce was first seen. [`NonceCache::expire`] removes
//! every entry more than [`REPLAY_EPOCH_WINDOW`] epochs behind the current one. A nonce within the
//! window is rejected as a duplicate; one outside it is rejected by its epoch before the cache is
//! consulted.

use vstd::prelude::*;

use crate::attestation::types::{outside_window, EpochId, Nonce, REPLAY_EPOCH_WINDOW};
use crate::ordered_map::{kept, OrderedMap};

verus! {

/// A nonce deduplication cache that expires entries outside the replay window.
#[derive(Clone, Debug)]
pub struct NonceCache {
    entries: OrderedMap<Nonce, EpochId>,
}

/// The epoch lies within the replay window of the current one.
pub open spec fn within_window(current_epoch: EpochId) -> spec_fn(EpochId) -> bool {
    |e: EpochId| !outside_window(e, current_epoch)
}

/// The nonces after one has been seen in an epoch.
pub open spec fn nonce_noted(
    m: Map<Seq<u8>, EpochId>,
    nonce: Seq<u8>,
    epoch_id: EpochId,
) -> Map<Seq<u8>, EpochId> {
    if m.dom().contains(nonce) {
        m
    } else {
        m.insert(nonce, epoch_id)
    }
}

/// After expiry no nonce from outside the window is left, and every other one still is.
pub proof fn law_expiry_bounds_the_window(
    m: Map<Seq<u8>, EpochId>,
    current_epoch: EpochId,
    nonce: Seq<u8>,
)
    ensures
        kept(m, within_window(current_epoch)).dom().contains(nonce) <==> m.dom().contains(nonce)
            && m[nonce] + REPLAY_EPOCH_WINDOW >= current_epoch,
{
}

impl View for NonceCache {
    type V = Map<Seq<u8>, EpochId>;

    closed spec fn view(&self) -> Map<Seq<u8>, EpochId> {
        self.entries@
    }
}

impl NonceCache {
    /// The table is in order.
    pub closed spec fn wf(&self) -> bool {
        self.entries.wf()
    }

    /// Finitely many nonces are cached.
    pub proof fn law_finite(&self)
        requires
            self.wf(),
        ensures
            self@.dom().finite(),
    {
        self.entries.lemma_finite();
    }

    /// Create an empty cache.
    pub fn new() -> (r: Self)
        ensures
            r.wf(),
            r@ == Map::<Seq<u8>, EpochId>::empty(),
    {
        NonceCache { entries: OrderedMap::new() }
    }

    /// Returns `true` if `nonce` is already present in the cache.
    pub fn contains(&self, nonce: &Nonce) -> (r: bool)
        requires
            self.wf(),
        ensures
            r == self@.dom().contains(nonce@),
    {
        self.entries.contains_key(nonce)
    }

    /// Insert `nonce` tagged with `epoch_id`. Returns `false` (and does not insert) if the nonce
    /// is already present.
    pub fn insert(&mut self, nonce: Nonce, epoch_id: EpochId) -> (r: bool)
        requires
            old(self).wf(),
        ensures
            final(self).wf(),
            r == !old(self)@.dom().contains(nonce@),
            final(self)@ == nonce_noted(old(self)@, nonce@, epoch_id),
    {
        if self.entries.contains_key(&nonce) {
            return false;
        }
        self.entries.insert(nonce, epoch_id);
        true
    }

    /// Expire all entries whose epoch is more than [`REPLAY_EPOCH_WINDOW`] behind
    /// `current_epoch`.
    pub fn expire(&mut self, current_epoch: EpochId)
        requires
            old(self).wf(),
        ensures
            final(self).wf(),
            final(self)@ == kept(old(self)@, within_window(current_epoch)),
    {
        let keep = |epoch_id: &EpochId| -> (b: bool)
            ensures
                b == !outside_window(*epoch_id, current_epoch),
            { current_epoch.saturating_sub(*epoch_id) <= REPLAY_EPOCH_WINDOW };
        self.entries.retain(keep, Ghost(within_window(current_epoch)));
    }

    /// Number of entries currently in the cache.
    pub fn len(&self) -> (r: usize)
        requires
            self.wf(),
        ensures
            r == self@.dom().len(),
    {
        self.entries.len()
    }

    /// Returns `true` if the cache holds no entries.
    pub fn is_empty(&self) -> (r: bool)
        requires
            self.wf(),
        ensures
            r == (self@ == Map::<Seq<u8>, EpochId>::empty()),
    {
        self.entries.is_empty()
    }
}

impl Default for NonceCache {
    fn default() -> (r: Self)
        ensures
            r.wf(),
            r@ == Map::<Seq<u8>, EpochId>::empty(),
    {
        Self::new()
    }
}

/// A nonce stands under the epoch it was first seen in, and no other nonce is touched. It is kept
/// while that epoch lies at most two epochs back.
pub proof fn law_nonce_is_kept_for_two_epochs(
    m: Map<Seq<u8>, EpochId>,
    nonce: Seq<u8>,
    epoch_id: EpochId,
    again: EpochId,
    current_epoch: EpochId,
    other: Seq<u8>,
)
    requires
        other != nonce,
    ensures
        ({
            let t = nonce_noted(m, nonce, epoch_id);
            let u = kept(t, within_window(current_epoch));
            &&& t.dom().contains(nonce)
            &&& m.dom().contains(nonce) ==> t[nonce] == m[nonce]
            &&& !m.dom().contains(nonce) ==> t[nonce] == epoch_id
            &&& nonce_noted(t, nonce, again) == t
            &&& t.dom().contains(other) == m.dom().contains(other)
            &&& t[other] == m[other]
            &&& u.dom().contains(nonce) <==> current_epoch <= t[nonce] + 2
            &&& u.dom().contains(nonce) ==> u[nonce] == t[nonce]
            &&& u.dom().contains(other) <==> m.dom().contains(other) && current_epoch <= m[other]
                + 2
        }),
{
    let t = nonce_noted(m, nonce, epoch_id);
    law_expiry_bounds_the_window(t, current_epoch, nonce);
    law_expiry_bounds_the_window(t, current_epoch, other);
}

} // verus!
