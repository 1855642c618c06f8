//! Single and aggregate signature verification with subgroup enforcement and a verification
//! cache indexed by the full 256-bit message root.
//!
//! Every untrusted public key is subgroup-checked before its signature is trusted. The signature
//! itself is a MAC keyed by the serialized public key, a stand-in for pairing verification.
//!
//! The cache indexes on the full message root and the aggregator index, so distinct roots never
//! share an entry, and keeps a bounded number of entries, evicting the least recently used.

use vstd::prelude::*;

use crate::arith::capped;
use crate::byte_order::{
    append, arrays_equal, bytes_before, lemma_bytes_before_irreflexive, lemma_bytes_before_total,
    lemma_bytes_before_transitive, slice_before, to_vec,
};
use crate::codec::{
    be64_at, be_digits, law_be_value_of_eight_bytes, law_le_value_of_four_bytes, le32_at, le_value,
    lemma_be_digits_of_value, lemma_radix_powers, read_le,
};
use crate::crypto::bls_keys::{
    in_subgroup, law_subgroup_is_the_multiples_of_twelve, subgroup_check_g2, G2Point,
};
use crate::crypto::sha256::{sha256, sha256_digest};
use crate::ordered_map::{OrderedKey, OrderedMap};

verus! {

/// Default maximum capacity for the verification cache.
pub const DEFAULT_BLS_CACHE_CAPACITY: usize = 8192;

/// A signature (a MAC keyed by the serialized public key).
pub type Signature = [u8; 32];

/// A 256-bit message root.
pub type MessageRoot = [u8; 32];

/// Verifier configuration toggle.
///
/// Production networks require the subgroup check; only test networks may disable it.
#[derive(Clone, Copy, Debug, PartialEq, Eq)]
pub struct SignatureVerifierConfig {
    pub require_subgroup_check: bool,
}

impl Default for SignatureVerifierConfig {
    fn default() -> (r: Self)
        ensures
            r.require_subgroup_check,
    {
        SignatureVerifierConfig { require_subgroup_check: true }
    }
}

impl SignatureVerifierConfig {
    /// Production policy: subgroup checks enabled.
    pub fn require_subgroup_check() -> (r: Self)
        ensures
            r == (SignatureVerifierConfig { require_subgroup_check: true }),
    {
        SignatureVerifierConfig { require_subgroup_check: true }
    }

    /// Test-network policy: subgroup checks disabled.
    pub fn test_network() -> (r: Self)
        ensures
            r == (SignatureVerifierConfig { require_subgroup_check: false }),
    {
        SignatureVerifierConfig { require_subgroup_check: false }
    }
}

/// A cache key pairing the full message root and the aggregator index.
#[derive(Clone, Copy, Debug, PartialEq, Eq, PartialOrd, Ord, Hash)]
pub struct BLSCacheKey {
    pub message_root_256: [u8; 32],
    pub aggregator_index: u64,
}

impl BLSCacheKey {
    /// Create a new 256-bit cache key.
    pub fn new(message_root_256: [u8; 32], aggregator_index: u64) -> (r: Self)
        ensures
            r == (BLSCacheKey { message_root_256, aggregator_index }),
    {
        BLSCacheKey { message_root_256, aggregator_index }
    }
}

impl OrderedKey for BLSCacheKey {
    type Model = (Seq<u8>, u64);

    open spec fn model(&self) -> (Seq<u8>, u64) {
        (self.message_root_256@, self.aggregator_index)
    }

    open spec fn before(a: (Seq<u8>, u64), b: (Seq<u8>, u64)) -> bool {
        bytes_before(a.0, b.0) || (a.0 == b.0 && a.1 < b.1)
    }

    proof fn before_irreflexive(a: (Seq<u8>, u64)) {
        lemma_bytes_before_irreflexive(a.0);
    }

    proof fn before_transitive(a: (Seq<u8>, u64), b: (Seq<u8>, u64), c: (Seq<u8>, u64)) {
        if bytes_before(a.0, b.0) && bytes_before(b.0, c.0) {
            lemma_bytes_before_transitive(a.0, b.0, c.0);
        }
    }

    proof fn before_total(a: (Seq<u8>, u64), b: (Seq<u8>, u64)) {
        lemma_bytes_before_total(a.0, b.0);
    }

    fn precedes(&self, other: &BLSCacheKey) -> (r: bool) {
        slice_before(self.message_root_256.as_slice(), other.message_root_256.as_slice()) || (
        arrays_equal(&self.message_root_256, &other.message_root_256) && self.aggregator_index
            < other.aggregator_index)
    }
}

/// A cache entry storing the verification outcome and full message root.
#[derive(Clone, Copy, Debug, PartialEq, Eq)]
pub struct BLSCacheEntry {
    pub full_message_root: [u8; 32],
    pub aggregator_index: u64,
    pub is_valid: bool,
    pub access_seq: u64,
}

impl BLSCacheEntry {
    /// Create a new cache entry.
    pub fn new(
        full_message_root: [u8; 32],
        aggregator_index: u64,
        is_valid: bool,
        access_seq: u64,
    ) -> (r: Self)
        ensures
            r == (BLSCacheEntry { full_message_root, aggregator_index, is_valid, access_seq }),
    {
        BLSCacheEntry { full_message_root, aggregator_index, is_valid, access_seq }
    }
}

/// Cache telemetry counters.
#[derive(Clone, Copy, Debug, PartialEq, Eq)]
pub struct BLSCacheMetrics {
    pub hits: u64,
    pub misses: u64,
    pub evictions: u64,
}

/// The counters before the first lookup.
pub open spec fn zero_metrics() -> BLSCacheMetrics {
    BLSCacheMetrics { hits: 0, misses: 0, evictions: 0 }
}

impl Default for BLSCacheMetrics {
    fn default() -> (r: Self)
        ensures
            r == zero_metrics(),
    {
        BLSCacheMetrics { hits: 0, misses: 0, evictions: 0 }
    }
}

/// The share of hits among all lookups in basis points.
pub open spec fn hit_ratio(m: BLSCacheMetrics) -> int {
    if m.hits + m.misses == 0 {
        0
    } else {
        m.hits * 10_000 / (m.hits + m.misses)
    }
}

impl BLSCacheMetrics {
    /// Total number of cache lookups.
    pub fn total_lookups(&self) -> (r: u64)
        ensures
            r == capped(self.hits + self.misses),
    {
        self.hits.saturating_add(self.misses)
    }

    /// Hit ratio in basis points (0 to 10,000).
    pub fn hit_ratio_bps(&self) -> (r: u64)
        ensures
            r == hit_ratio(*self),
            r <= 10_000,
    {
        let total: u128 = self.hits as u128 + self.misses as u128;
        if total == 0 {
            0
        } else {
            let hits: u128 = self.hits as u128;
            proof {
                assert(hits * 10_000 / total as int <= 10_000) by (nonlinear_arith)
                    requires
                        0 <= hits <= total,
                        total > 0,
                ;
            }
            (hits * 10_000 / total) as u64
        }
    }
}

/// Bounded cache for signature verification results that evicts the least recently used entry.
#[derive(Clone, Debug)]
pub struct BLSBatchVerificationCache {
    max_capacity: usize,
    entries: OrderedMap<BLSCacheKey, BLSCacheEntry>,
    next_seq: u64,
    metrics: BLSCacheMetrics,
}

/// What a cache holds.
pub struct CacheState {
    /// Configured maximum capacity.
    pub capacity: usize,
    /// The entries, by message root and aggregator index.
    pub entries: Map<(Seq<u8>, u64), BLSCacheEntry>,
    /// The sequence number of the latest access.
    pub next_seq: u64,
    /// Telemetry.
    pub metrics: BLSCacheMetrics,
}

/// `a` was used before `b`; entries with the same sequence number are ordered by their keys.
pub open spec fn used_before(
    m: Map<(Seq<u8>, u64), BLSCacheEntry>,
    a: (Seq<u8>, u64),
    b: (Seq<u8>, u64),
) -> bool {
    m[a].access_seq < m[b].access_seq || (m[a].access_seq == m[b].access_seq
        && BLSCacheKey::before(a, b))
}

/// `k` is the entry that goes first when the cache is full.
pub open spec fn is_oldest(m: Map<(Seq<u8>, u64), BLSCacheEntry>, k: (Seq<u8>, u64)) -> bool {
    m.dom().contains(k) && forall|o: (Seq<u8>, u64)| #[trigger]
        m.dom().contains(o) && o != k ==> used_before(m, k, o)
}

/// The entry that goes first when the cache is full.
pub open spec fn oldest(m: Map<(Seq<u8>, u64), BLSCacheEntry>) -> (Seq<u8>, u64) {
    choose|k: (Seq<u8>, u64)| is_oldest(m, k)
}

/// What a lookup finds.
pub open spec fn cached(s: CacheState, k: (Seq<u8>, u64)) -> Option<bool> {
    if s.entries.dom().contains(k) {
        Some(s.entries[k].is_valid)
    } else {
        None
    }
}

/// The cache after a lookup: a hit is counted and makes the entry the latest, a miss is counted.
pub open spec fn looked_up(s: CacheState, k: (Seq<u8>, u64)) -> CacheState {
    if s.entries.dom().contains(k) {
        let seq = s.next_seq.wrapping_add(1);
        CacheState {
            entries: s.entries.insert(k, BLSCacheEntry { access_seq: seq, ..s.entries[k] }),
            next_seq: seq,
            metrics: BLSCacheMetrics { hits: s.metrics.hits.saturating_add(1), ..s.metrics },
            ..s
        }
    } else {
        CacheState {
            metrics: BLSCacheMetrics { misses: s.metrics.misses.saturating_add(1), ..s.metrics },
            ..s
        }
    }
}

/// The entries with room for one more: where they have reached the capacity, the oldest is gone.
pub open spec fn with_room(s: CacheState) -> CacheState {
    if s.entries.dom().len() >= s.capacity {
        CacheState {
            entries: s.entries.remove(oldest(s.entries)),
            metrics: BLSCacheMetrics {
                evictions: s.metrics.evictions.saturating_add(1),
                ..s.metrics
            },
            ..s
        }
    } else {
        s
    }
}

/// The cache after an outcome has been stored under a key.
pub open spec fn stored(s: CacheState, key: BLSCacheKey, is_valid: bool) -> CacheState {
    let k = key.model();
    let seq = s.next_seq.wrapping_add(1);
    let entry = BLSCacheEntry {
        full_message_root: key.message_root_256,
        aggregator_index: key.aggregator_index,
        is_valid,
        access_seq: seq,
    };
    if s.capacity == 0 {
        s
    } else {
        let base = if s.entries.dom().contains(k) {
            s
        } else {
            with_room(s)
        };
        CacheState { entries: base.entries.insert(k, entry), next_seq: seq, ..base }
    }
}

/// A lookup after a store finds what was stored, unless the cache has no capacity.
pub proof fn law_lookup_after_store(s: CacheState, key: BLSCacheKey, is_valid: bool)
    ensures
        cached(stored(s, key, is_valid), key.model()) == if s.capacity == 0 {
            cached(s, key.model())
        } else {
            Some(is_valid)
        },
{
}

/// An outcome is never found under another root or aggregator index: storing under one key leaves
/// what is found under any other key as it was, or evicts it.
pub proof fn law_no_collisions(
    s: CacheState,
    key: BLSCacheKey,
    is_valid: bool,
    other: (Seq<u8>, u64),
)
    requires
        other != key.model(),
    ensures
        cached(stored(s, key, is_valid), other) == cached(s, other) || cached(
            stored(s, key, is_valid),
            other,
        ) is None,
{
}

/// A lookup changes nothing that later lookups find.
pub proof fn law_lookup_keeps_results(s: CacheState, k: (Seq<u8>, u64), other: (Seq<u8>, u64))
    ensures
        cached(looked_up(s, k), other) == cached(s, other),
{
}

/// Storing under a new key evicts nothing while there is room.
pub proof fn law_no_eviction_with_room(
    s: CacheState,
    key: BLSCacheKey,
    is_valid: bool,
    other: (Seq<u8>, u64),
)
    requires
        s.entries.dom().len() < s.capacity,
        other != key.model(),
    ensures
        cached(stored(s, key, is_valid), other) == cached(s, other),
{
}

/// At most one entry is the oldest.
pub proof fn lemma_oldest_unique(
    m: Map<(Seq<u8>, u64), BLSCacheEntry>,
    a: (Seq<u8>, u64),
    b: (Seq<u8>, u64),
)
    requires
        is_oldest(m, a),
        is_oldest(m, b),
    ensures
        a == b,
{
    if a != b {
        assert(used_before(m, a, b));
        assert(used_before(m, b, a));
        if BLSCacheKey::before(a, b) && BLSCacheKey::before(b, a) {
            BLSCacheKey::before_transitive(a, b, a);
            BLSCacheKey::before_irreflexive(a);
        }
    }
}

impl View for BLSBatchVerificationCache {
    type V = CacheState;

    closed spec fn view(&self) -> CacheState {
        CacheState {
            capacity: self.max_capacity,
            entries: self.entries@,
            next_seq: self.next_seq,
            metrics: self.metrics,
        }
    }
}

impl Default for BLSBatchVerificationCache {
    fn default() -> (r: Self)
        ensures
            r.wf(),
            r@ == (CacheState {
                capacity: DEFAULT_BLS_CACHE_CAPACITY,
                entries: Map::empty(),
                next_seq: 0,
                metrics: zero_metrics(),
            }),
    {
        Self::new(DEFAULT_BLS_CACHE_CAPACITY)
    }
}

impl BLSBatchVerificationCache {
    /// Every entry holds the root and the index of its key, and there are no more entries than
    /// the capacity allows.
    pub closed spec fn wf(&self) -> bool {
        &&& self.entries.wf()
        &&& self.entries.count() <= self.max_capacity
        &&& forall|k: (Seq<u8>, u64)| #[trigger]
            self.entries@.dom().contains(k) ==> self.entries@[k].full_message_root@ == k.0
                && self.entries@[k].aggregator_index == k.1
    }

    /// The cache never holds more entries than its capacity.
    pub proof fn law_bounded(&self)
        requires
            self.wf(),
        ensures
            self@.entries.dom().finite(),
            self@.entries.dom().len() <= self@.capacity,
    {
        self.entries.lemma_ascending();
        crate::ordered_map::lemma_map_size::<BLSCacheKey, BLSCacheEntry>(self.entries.entries());
    }

    /// Create a new cache with the specified capacity limit.
    pub fn new(max_capacity: usize) -> (r: Self)
        ensures
            r.wf(),
            r@ == (CacheState {
                capacity: max_capacity,
                entries: Map::empty(),
                next_seq: 0,
                metrics: zero_metrics(),
            }),
    {
        BLSBatchVerificationCache {
            max_capacity,
            entries: OrderedMap::new(),
            next_seq: 0,
            metrics: BLSCacheMetrics { hits: 0, misses: 0, evictions: 0 },
        }
    }

    /// Convenience alias for `new`.
    pub fn with_capacity(max_capacity: usize) -> (r: Self)
        ensures
            r.wf(),
            r@ == (CacheState {
                capacity: max_capacity,
                entries: Map::empty(),
                next_seq: 0,
                metrics: zero_metrics(),
            }),
    {
        Self::new(max_capacity)
    }

    /// Configured maximum capacity.
    pub fn capacity(&self) -> (r: usize)
        ensures
            r == self@.capacity,
    {
        self.max_capacity
    }

    /// Number of entries currently in cache.
    pub fn len(&self) -> (r: usize)
        requires
            self.wf(),
        ensures
            r == self@.entries.dom().len(),
    {
        self.entries.len()
    }

    /// Whether the cache contains zero entries.
    pub fn is_empty(&self) -> (r: bool)
        requires
            self.wf(),
        ensures
            r == (self@.entries == Map::<(Seq<u8>, u64), BLSCacheEntry>::empty()),
    {
        self.entries.is_empty()
    }

    /// Current telemetry metrics snapshot.
    pub fn metrics(&self) -> (r: BLSCacheMetrics)
        ensures
            r == self@.metrics,
    {
        self.metrics
    }

    /// Reset telemetry metrics to zero.
    pub fn reset_metrics(&mut self)
        requires
            old(self).wf(),
        ensures
            final(self).wf(),
            final(self)@ == (CacheState { metrics: zero_metrics(), ..old(self)@ }),
    {
        self.metrics = BLSCacheMetrics { hits: 0, misses: 0, evictions: 0 };
    }

    /// Clear all entries from cache.
    pub fn clear(&mut self)
        requires
            old(self).wf(),
        ensures
            final(self).wf(),
            final(self)@ == (CacheState { entries: Map::empty(), ..old(self)@ }),
    {
        self.entries.clear();
    }

    /// Check if an entry exists in cache without mutating access order or metrics.
    pub fn contains(&self, message_root: &[u8; 32], aggregator_index: u64) -> (r: bool)
        requires
            self.wf(),
        ensures
            r == (cached(self@, (message_root@, aggregator_index)) is Some),
    {
        self.entries.contains_key(&BLSCacheKey::new(*message_root, aggregator_index))
    }

    /// Peek at a cached result without updating metrics or LRU order.
    pub fn peek(&self, message_root: &[u8; 32], aggregator_index: u64) -> (r: Option<bool>)
        requires
            self.wf(),
        ensures
            r == cached(self@, (message_root@, aggregator_index)),
    {
        match self.entries.get(&BLSCacheKey::new(*message_root, aggregator_index)) {
            Some(entry) => Some(entry.is_valid),
            None => None,
        }
    }

    /// Lookup a verification result with full 256-bit root validation and LRU promotion.
    pub fn get(&mut self, message_root: &[u8; 32], aggregator_index: u64) -> (r: Option<bool>)
        requires
            old(self).wf(),
        ensures
            final(self).wf(),
            r == cached(old(self)@, (message_root@, aggregator_index)),
            final(self)@ == looked_up(old(self)@, (message_root@, aggregator_index)),
    {
        let key: BLSCacheKey = BLSCacheKey::new(*message_root, aggregator_index);
        self.get_by_key(&key)
    }

    /// Lookup by `BLSCacheKey`.
    pub fn get_by_key(&mut self, key: &BLSCacheKey) -> (r: Option<bool>)
        requires
            old(self).wf(),
        ensures
            final(self).wf(),
            r == cached(old(self)@, key.model()),
            final(self)@ == looked_up(old(self)@, key.model()),
    {
        let found: Option<BLSCacheEntry> = match self.entries.get(key) {
            Some(entry) => Some(*entry),
            None => None,
        };
        if let Some(entry) = found {
            if arrays_equal(&entry.full_message_root, &key.message_root_256)
                && entry.aggregator_index == key.aggregator_index {
                self.metrics.hits = self.metrics.hits.saturating_add(1);
                self.next_seq = self.next_seq.wrapping_add(1);
                let mut updated: BLSCacheEntry = entry;
                updated.access_seq = self.next_seq;
                self.entries.insert(*key, updated);
                return Some(entry.is_valid);
            }
        }
        self.metrics.misses = self.metrics.misses.saturating_add(1);
        None
    }

    /// Insert or update a verification outcome in the cache with LRU eviction if full.
    pub fn insert(&mut self, message_root: [u8; 32], aggregator_index: u64, is_valid: bool)
        requires
            old(self).wf(),
        ensures
            final(self).wf(),
            final(self)@ == stored(
                old(self)@,
                BLSCacheKey { message_root_256: message_root, aggregator_index },
                is_valid,
            ),
    {
        self.insert_key(BLSCacheKey::new(message_root, aggregator_index), is_valid);
    }

    /// The place of the entry that goes first when the cache is full.
    fn oldest_place(&self) -> (r: usize)
        requires
            self.wf(),
            self.entries.count() > 0,
        ensures
            r < self.entries.count(),
            self.entries.entries()[r as int].0 == oldest(self@.entries),
            is_oldest(self@.entries, oldest(self@.entries)),
    {
        let ghost s = self.entries.entries();
        let n: usize = self.entries.len();
        let mut best: usize = 0;
        let mut best_seq: u64 = self.entries.value_at(0).access_seq;
        let mut i: usize = 1;
        while i < n
            invariant
                self.wf(),
                s == self.entries.entries(),
                n == s.len(),
                1 <= i <= n,
                best < i,
                best_seq == s[best as int].1.access_seq,
                forall|j: int| 0 <= j < i ==> best_seq <= (#[trigger] s[j]).1.access_seq,
                forall|j: int| 0 <= j < best ==> best_seq < (#[trigger] s[j]).1.access_seq,
            decreases n - i,
        {
            let seq: u64 = self.entries.value_at(i).access_seq;
            if seq < best_seq {
                best = i;
                best_seq = seq;
            }
            i = i + 1;
        }
        proof {
            let m = self.entries@;
            let k = s[best as int].0;
            self.entries.lemma_at(best as int);
            self.entries.lemma_ascending();
            assert forall|o: (Seq<u8>, u64)| #[trigger]
                m.dom().contains(o) && o != k implies used_before(m, k, o) by {
                let j = self.entries.lemma_find(o);
                assert(best_seq <= s[j].1.access_seq);
                if j > best {
                    assert(BLSCacheKey::before(s[best as int].0, s[j].0));
                } else {
                    assert(best_seq < s[j].1.access_seq);
                }
            }
            assert(is_oldest(m, k));
            lemma_oldest_unique(m, k, oldest(m));
        }
        best
    }

    /// Insert or update by `BLSCacheKey`.
    pub fn insert_key(&mut self, key: BLSCacheKey, is_valid: bool)
        requires
            old(self).wf(),
        ensures
            final(self).wf(),
            final(self)@ == stored(old(self)@, key, is_valid),
    {
        if self.max_capacity == 0 {
            return;
        }
        proof {
            self.law_bounded();
        }
        let known: bool = self.entries.contains_key(&key);
        if !known && self.entries.len() >= self.max_capacity {
            let place: usize = self.oldest_place();
            self.entries.remove_at(place);
            self.metrics.evictions = self.metrics.evictions.saturating_add(1);
        }
        self.next_seq = self.next_seq.wrapping_add(1);
        let entry: BLSCacheEntry = BLSCacheEntry::new(
            key.message_root_256,
            key.aggregator_index,
            is_valid,
            self.next_seq,
        );
        self.entries.insert(key, entry);
    }
}

/// The signature over `msg` for `public_key`: the hash of the serialized key and the message.
pub open spec fn mac_of(public_key: G2Point, msg: Seq<u8>) -> Seq<u8> {
    sha256_digest(be_digits(public_key.element as nat, 8) + msg)
}

/// The signature is right, and the key is in the subgroup where that is required.
pub open spec fn signature_holds(
    config: SignatureVerifierConfig,
    public_key: G2Point,
    msg: Seq<u8>,
    signature: Signature,
) -> bool {
    &&& config.require_subgroup_check ==> in_subgroup(public_key)
    &&& signature@ == mac_of(public_key, msg)
}

/// There is a key, there are as many keys as signatures, and each pair holds.
pub open spec fn aggregate_holds(
    config: SignatureVerifierConfig,
    public_keys: Seq<G2Point>,
    msg: Seq<u8>,
    signatures: Seq<Signature>,
) -> bool {
    &&& public_keys.len() > 0
    &&& public_keys.len() == signatures.len()
    &&& forall|i: int|
        0 <= i < public_keys.len() ==> signature_holds(
            config,
            #[trigger] public_keys[i],
            msg,
            signatures[i],
        )
}

/// What a verification through the cache returns.
pub open spec fn cached_outcome(s: CacheState, k: (Seq<u8>, u64), holds: bool) -> bool {
    match cached(s, k) {
        Some(valid) => valid,
        None => holds,
    }
}

/// The cache after a verification through it.
pub open spec fn cache_after(s: CacheState, key: BLSCacheKey, holds: bool) -> CacheState {
    let looked = looked_up(s, key.model());
    match cached(s, key.model()) {
        Some(_) => looked,
        None => stored(looked, key, holds),
    }
}

/// A key outside the subgroup never verifies where the check is required.
pub proof fn law_low_order_keys_are_rejected(
    config: SignatureVerifierConfig,
    public_keys: Seq<G2Point>,
    msg: Seq<u8>,
    signatures: Seq<Signature>,
    i: int,
)
    requires
        config.require_subgroup_check,
        0 <= i < public_keys.len(),
        !in_subgroup(public_keys[i]),
    ensures
        !aggregate_holds(config, public_keys, msg, signatures),
{
}

/// Verifying again through the cache gives the same answer, when the cache has capacity.
pub proof fn law_cached_answer_is_repeated(s: CacheState, key: BLSCacheKey, first: bool, second: bool)
    requires
        s.capacity > 0,
    ensures
        cached_outcome(cache_after(s, key, first), key.model(), second) == cached_outcome(
            s,
            key.model(),
            first,
        ),
{
}

fn mac(public_key: &G2Point, msg: &[u8]) -> (r: Signature)
    ensures
        r@ == mac_of(*public_key, msg@),
{
    let mut buf: Vec<u8> = to_vec(public_key.to_bytes().as_slice());
    append(&mut buf, msg);
    sha256(buf.as_slice())
}

/// Produce a signature over `msg` for `public_key`.
pub fn sign_message(public_key: &G2Point, msg: &[u8]) -> (r: Signature)
    ensures
        r@ == mac_of(*public_key, msg@),
{
    mac(public_key, msg)
}

/// Hash an arbitrary message slice into a full 256-bit message root.
pub fn hash_message_to_root(msg: &[u8]) -> (r: [u8; 32])
    ensures
        r@ == sha256_digest(msg@),
{
    sha256(msg)
}

/// Extract the truncated 32-bit prefix of a 256-bit root (little-endian).
pub fn truncated_prefix_32(root: &[u8; 32]) -> (r: u32)
    ensures
        r == le_value(root@.subrange(0, 4)),
{
    proof {
        lemma_radix_powers();
    }
    read_le(root.as_slice(), 0, 4) as u32
}

/// The exclusive or of the first `n` little-endian 32-bit words.
pub open spec fn folded_words(root: Seq<u8>, n: nat) -> u32
    decreases n,
{
    if n == 0 {
        0
    } else {
        folded_words(root, (n - 1) as nat) ^ (le_value(root.subrange(4 * (n - 1), 4 * n as int)) as u32)
    }
}

/// Compute the 32-bit XOR fold of a 256-bit root.
pub fn xor_fold_32(root: &[u8; 32]) -> (r: u32)
    ensures
        r == folded_words(root@, 8),
{
    let mut folded: u32 = 0;
    let mut i: usize = 0;
    while i < 8
        invariant
            i <= 8,
            folded == folded_words(root@, i as nat),
        decreases 8 - i,
    {
        proof {
            lemma_radix_powers();
        }
        folded = folded ^ (read_le(root.as_slice(), 4 * i, 4) as u32);
        i = i + 1;
    }
    folded
}

/// Verify a single signature.
///
/// When enabled, the public key is rejected unless it lies in the prime-order subgroup.
pub fn verify_single_signature(
    config: SignatureVerifierConfig,
    public_key: &G2Point,
    msg: &[u8],
    signature: &Signature,
) -> (r: bool)
    ensures
        r == signature_holds(config, *public_key, msg@, *signature),
{
    if config.require_subgroup_check && !subgroup_check_g2(public_key) {
        return false;
    }
    ct_eq(&mac(public_key, msg), signature)
}

/// Verify an aggregate over a common message: every key and signature must validate (and every
/// key must pass the subgroup check when enabled). Returns `false` on empty or length-mismatched
/// inputs.
pub fn verify_aggregate(
    config: SignatureVerifierConfig,
    public_keys: &[G2Point],
    msg: &[u8],
    signatures: &[Signature],
) -> (r: bool)
    ensures
        r == aggregate_holds(config, public_keys@, msg@, signatures@),
{
    if public_keys.len() == 0 || public_keys.len() != signatures.len() {
        return false;
    }
    let mut i: usize = 0;
    while i < public_keys.len()
        invariant
            i <= public_keys@.len(),
            public_keys@.len() == signatures@.len(),
            forall|j: int|
                0 <= j < i ==> signature_holds(
                    config,
                    #[trigger] public_keys@[j],
                    msg@,
                    signatures@[j],
                ),
        decreases public_keys@.len() - i,
    {
        if !verify_single_signature(config, &public_keys[i], msg, &signatures[i]) {
            assert(!signature_holds(
                config,
                public_keys@[i as int],
                msg@,
                signatures@[i as int],
            ));
            return false;
        }
        i = i + 1;
    }
    true
}

/// Verification of an aggregate through the cache.
///
/// On a cache hit (matching full message root and aggregator index), returns the cached result.
/// On a miss, performs full verification and caches the result.
pub fn verify_batch_with_cache(
    config: SignatureVerifierConfig,
    cache: &mut BLSBatchVerificationCache,
    public_keys: &[G2Point],
    msg: &[u8],
    signatures: &[Signature],
    aggregator_index: u64,
) -> (r: bool)
    requires
        old(cache).wf(),
    ensures
        final(cache).wf(),
        r == cached_outcome(
            old(cache)@,
            (sha256_digest(msg@), aggregator_index),
            aggregate_holds(config, public_keys@, msg@, signatures@),
        ),
        exists|root: [u8; 32]| root@ == sha256_digest(msg@) && final(cache)@ == #[trigger] cache_after(
            old(cache)@,
            BLSCacheKey { message_root_256: root, aggregator_index },
            aggregate_holds(config, public_keys@, msg@, signatures@),
        ),
{
    let message_root: [u8; 32] = hash_message_to_root(msg);
    if let Some(valid) = cache.get(&message_root, aggregator_index) {
        assert(cache@ == cache_after(
            old(cache)@,
            BLSCacheKey { message_root_256: message_root, aggregator_index },
            aggregate_holds(config, public_keys@, msg@, signatures@),
        ));
        return valid;
    }
    let is_valid: bool = verify_aggregate(config, public_keys, msg, signatures);
    cache.insert(message_root, aggregator_index, is_valid);
    assert(cache@ == cache_after(
        old(cache)@,
        BLSCacheKey { message_root_256: message_root, aggregator_index },
        aggregate_holds(config, public_keys@, msg@, signatures@),
    ));
    is_valid
}

/// Verification with a precomputed 256-bit message root and cache lookup.
pub fn verify_batch_root_with_cache(
    config: SignatureVerifierConfig,
    cache: &mut BLSBatchVerificationCache,
    public_keys: &[G2Point],
    message_root: &[u8; 32],
    signatures: &[Signature],
    aggregator_index: u64,
) -> (r: bool)
    requires
        old(cache).wf(),
    ensures
        final(cache).wf(),
        r == cached_outcome(
            old(cache)@,
            (message_root@, aggregator_index),
            aggregate_holds(config, public_keys@, message_root@, signatures@),
        ),
        final(cache)@ == cache_after(
            old(cache)@,
            BLSCacheKey { message_root_256: *message_root, aggregator_index },
            aggregate_holds(config, public_keys@, message_root@, signatures@),
        ),
{
    if let Some(valid) = cache.get(message_root, aggregator_index) {
        return valid;
    }
    let is_valid: bool = verify_aggregate(
        config,
        public_keys,
        message_root.as_slice(),
        signatures,
    );
    cache.insert(*message_root, aggregator_index, is_valid);
    is_valid
}

/// A single batch item for multi-message or multi-aggregator batch verification.
#[derive(Clone, Debug, PartialEq, Eq)]
pub struct BLSBatchItem<'a> {
    pub public_keys: &'a [G2Point],
    pub msg: &'a [u8],
    pub signatures: &'a [Signature],
    pub aggregator_index: u64,
}

/// The item verifies on its own.
pub open spec fn item_holds(config: SignatureVerifierConfig, item: BLSBatchItem) -> bool {
    aggregate_holds(config, item.public_keys@, item.msg@, item.signatures@)
}

/// The key under which an item's outcome is cached.
pub open spec fn item_key(item: BLSBatchItem) -> BLSCacheKey {
    choose|k: BLSCacheKey|
        k.model() == (sha256_digest(item.msg@), item.aggregator_index)
}

/// The cache after the first `n` items.
pub open spec fn cache_after_items(
    config: SignatureVerifierConfig,
    s: CacheState,
    items: Seq<BLSBatchItem>,
    n: nat,
) -> CacheState
    decreases n,
{
    if n == 0 {
        s
    } else {
        cache_after(
            cache_after_items(config, s, items, (n - 1) as nat),
            item_key(items[n - 1]),
            item_holds(config, items[n - 1]),
        )
    }
}

/// Every item of a batch is one lookup, a hit or a miss, as long as the counters have room.
pub proof fn law_every_item_is_one_lookup(
    config: SignatureVerifierConfig,
    s: CacheState,
    items: Seq<BLSBatchItem>,
    n: nat,
)
    requires
        s.metrics.hits + s.metrics.misses + n <= u64::MAX,
    ensures
        ({
            let m = cache_after_items(config, s, items, n).metrics;
            &&& m.hits + m.misses == s.metrics.hits + s.metrics.misses + n
            &&& s.metrics.hits <= m.hits
            &&& s.metrics.misses <= m.misses
        }),
    decreases n,
{
    if n > 0 {
        law_every_item_is_one_lookup(config, s, items, (n - 1) as nat);
    }
}

/// What the item at a place is found to be, the ones before it having been verified.
pub open spec fn item_outcome(
    config: SignatureVerifierConfig,
    s: CacheState,
    items: Seq<BLSBatchItem>,
    i: int,
) -> bool {
    cached_outcome(
        cache_after_items(config, s, items, i as nat),
        item_key(items[i]).model(),
        item_holds(config, items[i]),
    )
}

/// Batch verify multiple distinct items using the verification cache. Every item is verified,
/// also behind one that fails; an empty batch does not hold.
pub fn verify_batch_items_with_cache(
    config: SignatureVerifierConfig,
    cache: &mut BLSBatchVerificationCache,
    items: &[BLSBatchItem],
) -> (r: bool)
    requires
        old(cache).wf(),
    ensures
        final(cache).wf(),
        r == (items@.len() > 0 && forall|i: int|
            0 <= i < items@.len() ==> #[trigger] item_outcome(config, old(cache)@, items@, i)),
        final(cache)@ == cache_after_items(config, old(cache)@, items@, items@.len()),
{
    if items.len() == 0 {
        return false;
    }
    let ghost s = cache@;
    let mut all_valid: bool = true;
    let mut i: usize = 0;
    while i < items.len()
        invariant
            cache.wf(),
            i <= items@.len(),
            cache@ == cache_after_items(config, s, items@, i as nat),
            all_valid == (forall|j: int|
                0 <= j < i ==> #[trigger] item_outcome(config, s, items@, j)),
        decreases items@.len() - i,
    {
        let item: &BLSBatchItem = &items[i];
        let ghost before = cache@;
        let valid: bool = verify_batch_with_cache(
            config,
            cache,
            item.public_keys,
            item.msg,
            item.signatures,
            item.aggregator_index,
        );
        proof {
            let root = choose|root: [u8; 32]|
                root@ == sha256_digest(item.msg@) && cache@ == #[trigger] cache_after(
                    before,
                    BLSCacheKey {
                        message_root_256: root,
                        aggregator_index: item.aggregator_index,
                    },
                    item_holds(config, *item),
                );
            let key = BLSCacheKey {
                message_root_256: root,
                aggregator_index: item.aggregator_index,
            };
            assert(key.model() == (sha256_digest(item.msg@), item.aggregator_index));
            crate::byte_order::lemma_array_view_injective(
                root,
                item_key(items@[i as int]).message_root_256,
            );
            assert(item_key(items@[i as int]) == key);
            assert(valid == item_outcome(config, s, items@, i as int));
        }
        if !valid {
            all_valid = false;
        }
        i = i + 1;
    }
    all_valid
}

/// Comparison of two 32-byte values that looks at every byte whatever the others are.
fn ct_eq(a: &Signature, b: &Signature) -> (r: bool)
    ensures
        r == (a@ == b@),
{
    let mut diff: u8 = 0;
    let mut i: usize = 0;
    while i < 32
        invariant
            i <= 32,
            diff == 0 <==> (forall|j: int| 0 <= j < i ==> #[trigger] a@[j] == b@[j]),
        decreases 32 - i,
    {
        let x: u8 = a[i];
        let y: u8 = b[i];
        assert((diff | (x ^ y)) == 0 <==> diff == 0 && x == y) by (bit_vector);
        diff = diff | (x ^ y);
        i = i + 1;
    }
    proof {
        if diff == 0 {
            assert(a@ =~= b@);
        }
    }
    diff == 0
}

/// The hit ratio is the share of hits in basis points, rounded down, and zero before any lookup.
pub proof fn law_hit_ratio_is_the_share(m: BLSCacheMetrics)
    ensures
        m.hits == 0 && m.misses == 0 ==> hit_ratio(m) == 0,
        m.hits + m.misses > 0 ==> hit_ratio(m) * (m.hits + m.misses) <= m.hits * 10_000 < (hit_ratio(
            m,
        ) + 1) * (m.hits + m.misses),
{
    let n = m.hits + m.misses;
    let x = m.hits * 10_000;
    if n > 0 {
        vstd::arithmetic::div_mod::lemma_fundamental_div_mod(x, n);
        vstd::arithmetic::div_mod::lemma_mod_bound(x, n);
        let q = x / n;
        assert(n * q == q * n) by (nonlinear_arith);
        assert((q + 1) * n == q * n + n) by (nonlinear_arith);
    }
}

/// A lookup that finds its entry counts as a hit and makes the entry the latest used one; any other
/// counts as a miss and changes no entry. The other entries stay as they are.
pub proof fn law_lookup_counts_and_refreshes(
    s: CacheState,
    k: (Seq<u8>, u64),
    other: (Seq<u8>, u64),
)
    requires
        other != k,
        s.next_seq < u64::MAX,
        s.metrics.hits < u64::MAX,
        s.metrics.misses < u64::MAX,
    ensures
        ({
            let t = looked_up(s, k);
            let found = s.entries.dom().contains(k);
            &&& t.capacity == s.capacity
            &&& t.entries.dom() == s.entries.dom()
            &&& t.entries[other] == s.entries[other]
            &&& t.metrics.evictions == s.metrics.evictions
            &&& found ==> {
                &&& t.metrics.hits == s.metrics.hits + 1
                &&& t.metrics.misses == s.metrics.misses
                &&& t.next_seq == s.next_seq + 1
                &&& t.entries[k].access_seq == s.next_seq + 1
                &&& t.entries[k].is_valid == s.entries[k].is_valid
                &&& t.entries[k].full_message_root == s.entries[k].full_message_root
                &&& t.entries[k].aggregator_index == s.entries[k].aggregator_index
            }
            &&& !found ==> {
                &&& t.metrics.hits == s.metrics.hits
                &&& t.metrics.misses == s.metrics.misses + 1
                &&& t.next_seq == s.next_seq
                &&& t.entries == s.entries
            }
        }),
{
    assert(looked_up(s, k).entries.dom() =~= s.entries.dom());
}

proof fn lemma_oldest_exists(m: Map<(Seq<u8>, u64), BLSCacheEntry>)
    requires
        m.dom().finite(),
        m.dom().len() > 0,
    ensures
        exists|k: (Seq<u8>, u64)| is_oldest(m, k),
    decreases m.dom().len(),
{
    let k = m.dom().choose();
    let rest = m.remove(k);
    assert(rest.dom() =~= m.dom().remove(k));
    if rest.dom().len() == 0 {
        assert forall|o: (Seq<u8>, u64)| #[trigger]
            m.dom().contains(o) && o != k implies used_before(m, k, o) by {
            assert(rest.dom().contains(o));
        }
        assert(is_oldest(m, k));
    } else {
        lemma_oldest_exists(rest);
        let o = choose|o: (Seq<u8>, u64)| is_oldest(rest, o);
        assert(rest.dom().contains(o));
        BLSCacheKey::before_total(k, o);
        if used_before(m, o, k) {
            assert forall|p: (Seq<u8>, u64)| #[trigger]
                m.dom().contains(p) && p != o implies used_before(m, o, p) by {
                if p != k {
                    assert(rest.dom().contains(p));
                }
            }
            assert(is_oldest(m, o));
        } else {
            assert forall|p: (Seq<u8>, u64)| #[trigger]
                m.dom().contains(p) && p != k implies used_before(m, k, p) by {
                if p != o {
                    assert(rest.dom().contains(p));
                    assert(used_before(rest, o, p));
                    if BLSCacheKey::before(k, o) && BLSCacheKey::before(o, p) {
                        BLSCacheKey::before_transitive(k, o, p);
                    }
                }
            }
            assert(is_oldest(m, k));
        }
    }
}

/// Storing gives the entry the next place in the order of use. Only a new key in a full cache
/// drives out another entry, exactly one, and one that no entry was used before; a cache without
/// room stores nothing.
pub proof fn law_store_drives_out_the_least_recently_used(
    s: CacheState,
    key: BLSCacheKey,
    is_valid: bool,
)
    requires
        s.entries.dom().finite(),
        s.entries.dom().len() <= s.capacity,
        s.next_seq < u64::MAX,
        s.metrics.evictions < u64::MAX,
    ensures
        ({
            let t = stored(s, key, is_valid);
            let k = (key.message_root_256@, key.aggregator_index);
            let full = s.entries.dom().len() == s.capacity && !s.entries.dom().contains(k);
            &&& s.capacity == 0 ==> t == s
            &&& s.capacity > 0 ==> {
                &&& t.entries.dom().contains(k)
                &&& t.entries[k].is_valid == is_valid
                &&& t.entries[k].access_seq == s.next_seq + 1
                &&& t.entries[k].full_message_root == key.message_root_256
                &&& t.entries[k].aggregator_index == key.aggregator_index
                &&& t.next_seq == s.next_seq + 1
                &&& t.capacity == s.capacity
                &&& t.metrics.hits == s.metrics.hits
                &&& t.metrics.misses == s.metrics.misses
                &&& t.metrics.evictions == s.metrics.evictions + (if full {
                    1int
                } else {
                    0int
                })
                &&& t.entries.dom().len() == (if full || s.entries.dom().contains(k) {
                    s.entries.dom().len()
                } else {
                    s.entries.dom().len() + 1
                })
                &&& forall|o: (Seq<u8>, u64)|
                    o != k && #[trigger] t.entries.dom().contains(o) ==> s.entries.dom().contains(o)
                        && t.entries[o] == s.entries[o]
                &&& forall|o: (Seq<u8>, u64), p: (Seq<u8>, u64)|
                    #![trigger s.entries.dom().contains(o), s.entries.dom().contains(p)]
                    s.entries.dom().contains(o) && !t.entries.dom().contains(o)
                        && s.entries.dom().contains(p) ==> full && s.entries[o].access_seq
                        <= s.entries[p].access_seq
            }
        }),
{
    let k = key.model();
    if s.capacity > 0 {
        let t = stored(s, key, is_valid);
        if s.entries.dom().contains(k) {
            assert(t.entries.dom() =~= s.entries.dom());
        } else if s.entries.dom().len() >= s.capacity {
            lemma_oldest_exists(s.entries);
            let o = oldest(s.entries);
            assert(is_oldest(s.entries, o));
            assert(t.entries.dom() =~= s.entries.dom().remove(o).insert(k));
        } else {
            assert(t.entries.dom() =~= s.entries.dom().insert(k));
        }
    }
}

/// An answer that is cached is given whatever the signatures say; any other is worked out, given
/// and kept for the next time.
pub proof fn law_answer_is_cached_or_worked_out(s: CacheState, key: BLSCacheKey, holds: bool)
    requires
        s.capacity > 0,
    ensures
        ({
            let k = (key.message_root_256@, key.aggregator_index);
            let t = cache_after(s, key, holds);
            &&& s.entries.dom().contains(k) ==> cached_outcome(s, k, holds) == s.entries[k].is_valid
            &&& !s.entries.dom().contains(k) ==> cached_outcome(s, k, holds) == holds
            &&& t.entries.dom().contains(k)
            &&& t.entries[k].is_valid == cached_outcome(s, k, holds)
            &&& t.metrics.evictions > s.metrics.evictions ==> !s.entries.dom().contains(k)
        }),
{
}

/// A signature holds exactly where it is the digest of the key's eight bytes, most significant
/// first, and the message, and, where the check is asked for, the key's element is a multiple of
/// twelve.
pub proof fn law_signature_is_digest_of_key_and_message(
    config: SignatureVerifierConfig,
    public_key: G2Point,
    msg: Seq<u8>,
    signature: Signature,
    key_bytes: Seq<u8>,
)
    requires
        key_bytes.len() == 8,
        be64_at(key_bytes, 0) == public_key.element,
    ensures
        mac_of(public_key, msg) == sha256_digest(key_bytes + msg),
        signature_holds(config, public_key, msg, signature) <==> signature@ == sha256_digest(
            key_bytes + msg,
        ) && (config.require_subgroup_check ==> public_key.element % 12 == 0),
{
    law_subgroup_is_the_multiples_of_twelve(public_key);
    law_be_value_of_eight_bytes(key_bytes, 0);
    assert(key_bytes.subrange(0, 8) =~= key_bytes);
    lemma_be_digits_of_value(key_bytes);
}

/// An aggregate holds exactly where it has signatures and each key's own signature holds: one more
/// pair is judged by itself, and nothing holds without a pair or with a key or a signature left
/// over.
pub proof fn law_aggregate_holds_pair_by_pair(
    config: SignatureVerifierConfig,
    public_keys: Seq<G2Point>,
    msg: Seq<u8>,
    signatures: Seq<Signature>,
    key: G2Point,
    signature: Signature,
)
    ensures
        public_keys.len() == 0 ==> !aggregate_holds(config, public_keys, msg, signatures),
        public_keys.len() != signatures.len() ==> !aggregate_holds(
            config,
            public_keys,
            msg,
            signatures,
        ),
        public_keys.len() == signatures.len() ==> (aggregate_holds(
            config,
            public_keys.push(key),
            msg,
            signatures.push(signature),
        ) <==> (public_keys.len() == 0 || aggregate_holds(config, public_keys, msg, signatures))
            && signature_holds(config, key, msg, signature)),
{
    if public_keys.len() == signatures.len() {
        let ks = public_keys.push(key);
        let ss = signatures.push(signature);
        if aggregate_holds(config, ks, msg, ss) {
            assert(signature_holds(config, ks[public_keys.len() as int], msg, ss[
                public_keys.len() as int
            ]));
            assert forall|i: int| 0 <= i < public_keys.len() implies signature_holds(
                config,
                #[trigger] public_keys[i],
                msg,
                signatures[i],
            ) by {
                assert(signature_holds(config, ks[i], msg, ss[i]));
            }
        }
    }
}

/// The fold of a root is the exclusive or of its eight words, each read least significant byte
/// first.
pub proof fn law_fold_takes_in_every_word(root: Seq<u8>)
    requires
        root.len() == 32,
    ensures
        folded_words(root, 8) == 0u32 ^ (le32_at(root, 0) as u32) ^ (le32_at(root, 4) as u32) ^ (
        le32_at(root, 8) as u32) ^ (le32_at(root, 12) as u32) ^ (le32_at(root, 16) as u32) ^ (
        le32_at(root, 20) as u32) ^ (le32_at(root, 24) as u32) ^ (le32_at(root, 28) as u32),
{
    reveal_with_fuel(folded_words, 9);
    law_le_value_of_four_bytes(root, 0);
    law_le_value_of_four_bytes(root, 4);
    law_le_value_of_four_bytes(root, 8);
    law_le_value_of_four_bytes(root, 12);
    law_le_value_of_four_bytes(root, 16);
    law_le_value_of_four_bytes(root, 20);
    law_le_value_of_four_bytes(root, 24);
    law_le_value_of_four_bytes(root, 28);
}

/// A cache has room for 8,192 answers where nothing else is configured.
pub proof fn law_default_room()
    ensures
        DEFAULT_BLS_CACHE_CAPACITY == 8_192,
        zero_metrics().hits == 0,
        zero_metrics().misses == 0,
        zero_metrics().evictions == 0,
{
}

} // verus!
