//! Cache facade with configurable TTL and Redis-ready settings.
//!
//! The cache backend is dependency-free; service adapters translate [`RedisCacheConfig`] into
//! their Redis client of choice. Critical paths use [`TtlCache`] in-process and export
//! [`CacheMetrics`] to monitoring.

use vstd::prelude::*;

use crate::ordered_map::{kept, OrderedKey, OrderedMap};

verus! {

/// Default item lifetime used by [`CacheConfig::default`].
pub const DEFAULT_TTL_MS: u64 = 30_000;

/// Default namespace prefix used to avoid key collisions in shared Redis.
pub const DEFAULT_NAMESPACE: &'static str = "verinode";

/// Default soft latency budget for cache operations on critical paths.
pub const DEFAULT_OPERATION_BUDGET_MS: u64 = 100;

/// Cache configuration shared by in-memory and Redis-backed deployments.
#[derive(Clone, Debug, PartialEq, Eq)]
pub struct CacheConfig {
    /// Default TTL assigned when callers do not provide an override.
    pub default_ttl_ms: u64,
    /// Maximum entries retained by the in-memory fallback.
    pub max_entries: usize,
    /// Namespace prepended by service adapters before writing to Redis.
    pub namespace: &'static str,
    /// Soft P99 budget used by monitoring/alerting dashboards.
    pub operation_budget_ms: u64,
    /// Optional Redis connection information for off-chain services.
    pub redis: Option<RedisCacheConfig>,
}

/// The configuration is the default one, but for its TTL.
pub open spec fn default_but_ttl(c: CacheConfig, ttl_ms: u64) -> bool {
    &&& c.default_ttl_ms == ttl_ms
    &&& c.max_entries == 10_000
    &&& c.namespace@ == DEFAULT_NAMESPACE@
    &&& c.operation_budget_ms == DEFAULT_OPERATION_BUDGET_MS
    &&& c.redis is None
}

/// The effective lifetime of an entry.
pub open spec fn effective_ttl(c: CacheConfig, ttl_ms: Option<u64>) -> u64 {
    match ttl_ms {
        Some(t) => t,
        None => c.default_ttl_ms,
    }
}

impl CacheConfig {
    /// Create a config with a custom default TTL.
    pub fn with_ttl(default_ttl_ms: u64) -> (r: Self)
        ensures
            default_but_ttl(r, default_ttl_ms),
    {
        CacheConfig {
            default_ttl_ms,
            max_entries: 10_000,
            namespace: DEFAULT_NAMESPACE,
            operation_budget_ms: DEFAULT_OPERATION_BUDGET_MS,
            redis: None,
        }
    }

    /// Return the effective TTL, falling back to the configured default.
    pub fn ttl_or_default(&self, ttl_ms: Option<u64>) -> (r: u64)
        ensures
            r == effective_ttl(*self, ttl_ms),
    {
        match ttl_ms {
            Some(t) => t,
            None => self.default_ttl_ms,
        }
    }
}

impl Default for CacheConfig {
    fn default() -> (r: Self)
        ensures
            default_but_ttl(r, DEFAULT_TTL_MS),
    {
        Self::with_ttl(DEFAULT_TTL_MS)
    }
}

/// Redis deployment settings consumed by off-chain service adapters.
#[derive(Clone, Debug, PartialEq, Eq)]
pub struct RedisCacheConfig {
    /// Redis URL, for example `redis://cache.internal:6379/0`.
    pub url: &'static str,
    /// Connection pool size for high-availability service deployments.
    pub pool_size: u32,
    /// Socket/connect timeout in milliseconds.
    pub timeout_ms: u64,
    /// Whether adapters must require TLS-capable Redis endpoints.
    pub require_tls: bool,
}

impl RedisCacheConfig {
    /// Build a secure Redis configuration with conservative defaults.
    pub fn new(url: &'static str) -> (r: Self)
        ensures
            r == (RedisCacheConfig {
                url,
                pool_size: 16,
                timeout_ms: DEFAULT_OPERATION_BUDGET_MS,
                require_tls: true,
            }),
    {
        RedisCacheConfig {
            url,
            pool_size: 16,
            timeout_ms: DEFAULT_OPERATION_BUDGET_MS,
            require_tls: true,
        }
    }
}

/// Cache hit/miss/eviction counters for monitoring and alerting.
#[derive(Clone, Copy, Debug, PartialEq, Eq)]
pub struct CacheMetrics {
    pub hits: u64,
    pub misses: u64,
    pub writes: u64,
    pub evictions: u64,
    pub expirations: u64,
}

/// The counters of a fresh cache.
pub open spec fn zero_metrics() -> CacheMetrics {
    CacheMetrics { hits: 0, misses: 0, writes: 0, evictions: 0, expirations: 0 }
}

impl Default for CacheMetrics {
    fn default() -> (r: Self)
        ensures
            r == zero_metrics(),
    {
        CacheMetrics { hits: 0, misses: 0, writes: 0, evictions: 0, expirations: 0 }
    }
}

/// The share of hits among all lookups in basis points.
pub open spec fn hit_ratio(m: CacheMetrics) -> int {
    if m.hits + m.misses == 0 {
        0
    } else {
        m.hits * 10_000 / (m.hits + m.misses)
    }
}

impl CacheMetrics {
    /// Integer hit ratio in basis points, suitable for compact dashboards.
    pub fn hit_ratio_bps(&self) -> (r: u32)
        requires
            self.hits + self.misses <= u64::MAX,
            self.hits * 10_000 <= u64::MAX,
        ensures
            r == hit_ratio(*self),
            r <= 10_000,
    {
        let total: u64 = self.hits + self.misses;
        if total == 0 {
            return 0;
        }
        proof {
            let h = self.hits as int;
            let t = total as int;
            assert(0 <= h * 10_000 / t <= 10_000) by (nonlinear_arith)
                requires
                    0 <= h <= t,
                    t > 0,
            ;
        }
        ((self.hits * 10_000) / total) as u32
    }
}

/// A cached value with its times.
#[derive(Clone, Debug, PartialEq, Eq)]
pub struct Entry<V> {
    pub value: V,
    pub expires_at_ms: u64,
    pub written_at_ms: u64,
}

/// Deterministic in-memory TTL cache used by tests and single-process services.
#[derive(Clone, Debug)]
pub struct TtlCache<K, V> {
    entries: OrderedMap<K, Entry<V>>,
    config: CacheConfig,
    metrics: CacheMetrics,
}

/// What a cache holds.
#[verifier::reject_recursive_types(M)]
pub struct TtlState<M, V> {
    pub entries: Map<M, Entry<V>>,
    pub config: CacheConfig,
    pub metrics: CacheMetrics,
}

/// The entry has not expired.
pub open spec fn alive<V>(now: u64) -> spec_fn(Entry<V>) -> bool {
    |e: Entry<V>| now < e.expires_at_ms
}

/// The cache without its expired entries.
pub open spec fn expired<M, V>(s: TtlState<M, V>, now: u64) -> TtlState<M, V> {
    let entries = kept(s.entries, alive(now));
    TtlState {
        entries,
        metrics: CacheMetrics {
            expirations: crate::arith::capped(
                s.metrics.expirations + (s.entries.dom().len() - entries.dom().len()),
            ),
            ..s.metrics
        },
        ..s
    }
}

/// `a` was written before `b`; entries written at the same time are ordered by their keys.
pub open spec fn written_before<K: OrderedKey, V>(
    m: Map<K::Model, Entry<V>>,
    a: K::Model,
    b: K::Model,
) -> bool {
    m[a].written_at_ms < m[b].written_at_ms || (m[a].written_at_ms == m[b].written_at_ms
        && K::before(a, b))
}

/// `k` is the entry that goes first when there are too many.
pub open spec fn is_oldest<K: OrderedKey, V>(m: Map<K::Model, Entry<V>>, k: K::Model) -> bool {
    m.dom().contains(k) && forall|o: K::Model| #[trigger]
        m.dom().contains(o) && o != k ==> written_before::<K, V>(m, k, o)
}

/// The entry that goes first when there are too many.
pub open spec fn oldest<K: OrderedKey, V>(m: Map<K::Model, Entry<V>>) -> K::Model {
    choose|k: K::Model| is_oldest::<K, V>(m, k)
}

/// The cache after a value has been written: expired entries go, the entry is put in its place, and
/// the oldest goes where there are too many.
pub open spec fn written<K: OrderedKey, V>(
    s: TtlState<K::Model, V>,
    k: K::Model,
    value: V,
    now: u64,
    ttl_ms: Option<u64>,
) -> TtlState<K::Model, V> {
    let e = expired(s, now);
    let entries = e.entries.insert(
        k,
        Entry {
            value,
            expires_at_ms: now.saturating_add(effective_ttl(s.config, ttl_ms)),
            written_at_ms: now,
        },
    );
    let metrics = CacheMetrics { writes: e.metrics.writes.saturating_add(1), ..e.metrics };
    if entries.dom().len() > s.config.max_entries {
        TtlState {
            entries: entries.remove(oldest::<K, V>(entries)),
            metrics: CacheMetrics { evictions: metrics.evictions.saturating_add(1), ..metrics },
            ..s
        }
    } else {
        TtlState { entries, metrics, ..s }
    }
}

/// The value under a key is there and has not expired.
pub open spec fn is_live<M, V>(s: TtlState<M, V>, k: M, now: u64) -> bool {
    s.entries.dom().contains(k) && now < s.entries[k].expires_at_ms
}

/// The cache after a lookup: an expired entry goes, and a hit or a miss is counted.
pub open spec fn looked_up<M, V>(s: TtlState<M, V>, k: M, now: u64) -> TtlState<M, V> {
    if is_live(s, k, now) {
        TtlState {
            metrics: CacheMetrics { hits: s.metrics.hits.saturating_add(1), ..s.metrics },
            ..s
        }
    } else {
        TtlState {
            entries: s.entries.remove(k),
            metrics: CacheMetrics {
                misses: s.metrics.misses.saturating_add(1),
                expirations: if s.entries.dom().contains(k) {
                    s.metrics.expirations.saturating_add(1)
                } else {
                    s.metrics.expirations
                },
                ..s.metrics
            },
            ..s
        }
    }
}

/// A value that was written is found until its lifetime is over and not after, unless it was
/// evicted at once.
pub proof fn law_value_lives_for_its_ttl<K: OrderedKey, V>(
    s: TtlState<K::Model, V>,
    k: K::Model,
    value: V,
    now: u64,
    ttl_ms: Option<u64>,
    later: u64,
)
    requires
        s.entries.dom().finite(),
        expired(s, now).entries.dom().len() < s.config.max_entries || expired(
            s,
            now,
        ).entries.dom().contains(k),
        expired(s, now).entries.dom().len() <= s.config.max_entries,
    ensures
        ({
            let t = written::<K, V>(s, k, value, now, ttl_ms);
            &&& t.entries.dom().contains(k)
            &&& t.entries[k].value == value
            &&& is_live(t, k, later) <==> later < now.saturating_add(
                effective_ttl(s.config, ttl_ms),
            )
        }),
{
    let e = expired(s, now).entries;
    assert(e.dom().subset_of(s.entries.dom()));
    vstd::set_lib::lemma_len_subset(e.dom(), s.entries.dom());
    let entry = Entry {
        value,
        expires_at_ms: now.saturating_add(effective_ttl(s.config, ttl_ms)),
        written_at_ms: now,
    };
    assert(e.insert(k, entry).dom() =~= e.dom().insert(k));
}

/// An expired value is never returned, and a lookup removes it.
pub proof fn law_expired_value_is_gone<M, V>(s: TtlState<M, V>, k: M, now: u64)
    requires
        s.entries.dom().contains(k),
        s.entries[k].expires_at_ms <= now,
    ensures
        !is_live(s, k, now),
        !looked_up(s, k, now).entries.dom().contains(k),
{
}

/// At most one entry is the oldest.
pub proof fn lemma_oldest_unique<K: OrderedKey, V>(
    m: Map<K::Model, Entry<V>>,
    a: K::Model,
    b: K::Model,
)
    requires
        is_oldest::<K, V>(m, a),
        is_oldest::<K, V>(m, b),
    ensures
        a == b,
{
    if a != b {
        assert(written_before::<K, V>(m, a, b));
        assert(written_before::<K, V>(m, b, a));
        if K::before(a, b) && K::before(b, a) {
            K::before_transitive(a, b, a);
            K::before_irreflexive(a);
        }
    }
}

impl<K: OrderedKey, V: Clone> TtlCache<K, V> {
    /// What the cache holds.
    pub closed spec fn view(&self) -> TtlState<K::Model, V> {
        TtlState { entries: self.entries@, config: self.config, metrics: self.metrics }
    }

    /// There are no more entries than the configuration allows.
    pub closed spec fn wf(&self) -> bool {
        &&& self.entries.wf()
        &&& self.entries.count() <= self.config.max_entries
    }

    proof fn lemma_size(&self)
        requires
            self.entries.wf(),
        ensures
            self@.entries.dom().finite(),
            self@.entries.dom().len() == self.entries.count(),
    {
        self.entries.lemma_ascending();
        crate::ordered_map::lemma_map_size::<K, Entry<V>>(self.entries.entries());
    }

    /// The cache never holds more entries than its configuration allows.
    pub proof fn law_bounded(&self)
        requires
            self.wf(),
        ensures
            self@.entries.dom().finite(),
            self@.entries.dom().len() <= self@.config.max_entries,
    {
        self.lemma_size();
    }

    /// Create an empty cache using the supplied configuration.
    pub fn new(config: CacheConfig) -> (r: Self)
        ensures
            r.wf(),
            r@ == (TtlState::<K::Model, V> {
                entries: Map::empty(),
                config,
                metrics: zero_metrics(),
            }),
    {
        TtlCache {
            entries: OrderedMap::new(),
            config,
            metrics: CacheMetrics { hits: 0, misses: 0, writes: 0, evictions: 0, expirations: 0 },
        }
    }

    /// Insert a value with an optional per-entry TTL override.
    pub fn insert(&mut self, key: K, value: V, now_ms: u64, ttl_ms: Option<u64>)
        requires
            old(self).wf(),
        ensures
            final(self).wf(),
            final(self)@ == written::<K, V>(old(self)@, key.model(), value, now_ms, ttl_ms),
    {
        self.expire(now_ms);
        let ttl: u64 = self.config.ttl_or_default(ttl_ms);
        self.entries.insert(
            key,
            Entry { value, expires_at_ms: now_ms.saturating_add(ttl), written_at_ms: now_ms },
        );
        self.metrics.writes = self.metrics.writes.saturating_add(1);
        proof {
            self.lemma_size();
        }
        if self.entries.len() > self.config.max_entries {
            let place: usize = self.oldest_place();
            self.entries.remove_at(place);
            self.metrics.evictions = self.metrics.evictions.saturating_add(1);
        }
    }

    /// Return a cached value if present and unexpired.
    pub fn get(&mut self, key: &K, now_ms: u64) -> (r: Option<V>)
        requires
            old(self).wf(),
        ensures
            final(self).wf(),
            final(self)@ == looked_up(old(self)@, key.model(), now_ms),
            r is Some <==> is_live(old(self)@, key.model(), now_ms),
            r matches Some(v) ==> cloned(old(self)@.entries[key.model()].value, v),
    {
        let ghost before = self@;
        let found: Option<usize> = self.entries.position(key);
        if let Some(i) = found {
            if now_ms >= self.entries.value_at(i).expires_at_ms {
                self.entries.remove_at(i);
                self.metrics.expirations = self.metrics.expirations.saturating_add(1);
                self.metrics.misses = self.metrics.misses.saturating_add(1);
                None
            } else {
                self.metrics.hits = self.metrics.hits.saturating_add(1);
                Some(self.entries.value_at(i).value.clone())
            }
        } else {
            self.metrics.misses = self.metrics.misses.saturating_add(1);
            assert(self@.entries =~= before.entries.remove(key.model()));
            None
        }
    }

    /// Remove all expired entries as of `now_ms`.
    pub fn expire(&mut self, now_ms: u64)
        requires
            old(self).wf(),
        ensures
            final(self).wf(),
            final(self)@ == expired(old(self)@, now_ms),
    {
        proof {
            self.lemma_size();
        }
        let before: usize = self.entries.len();
        let keep = |e: &Entry<V>| -> (b: bool)
            ensures
                b == (now_ms < e.expires_at_ms),
            { now_ms < e.expires_at_ms };
        self.entries.retain(keep, Ghost(alive(now_ms)));
        proof {
            self.lemma_size();
        }
        self.metrics.expirations = self.metrics.expirations.saturating_add(
            (before - self.entries.len()) as u64,
        );
    }

    /// Current number of live entries.
    pub fn len(&self) -> (r: usize)
        requires
            self.wf(),
        ensures
            r == self@.entries.dom().len(),
    {
        self.entries.len()
    }

    /// Returns `true` when there are no live entries.
    pub fn is_empty(&self) -> (r: bool)
        requires
            self.wf(),
        ensures
            r == (self@.entries == Map::<K::Model, Entry<V>>::empty()),
    {
        self.entries.is_empty()
    }

    /// Snapshot cache counters for observability export.
    pub fn metrics(&self) -> (r: CacheMetrics)
        ensures
            r == self@.metrics,
    {
        self.metrics
    }

    /// The place of the entry that goes first when there are too many.
    fn oldest_place(&self) -> (r: usize)
        requires
            self.entries.wf(),
            self.entries.count() > 0,
        ensures
            r < self.entries.count(),
            self.entries.entries()[r as int].0 == oldest::<K, V>(self@.entries),
    {
        let ghost s = self.entries.entries();
        let n: usize = self.entries.len();
        let mut best: usize = 0;
        let mut best_time: u64 = self.entries.value_at(0).written_at_ms;
        let mut i: usize = 1;
        while i < n
            invariant
                self.entries.wf(),
                s == self.entries.entries(),
                n == s.len(),
                1 <= i <= n,
                best < i,
                best_time == s[best as int].1.written_at_ms,
                forall|j: int| 0 <= j < i ==> best_time <= (#[trigger] s[j]).1.written_at_ms,
                forall|j: int| 0 <= j < best ==> best_time < (#[trigger] s[j]).1.written_at_ms,
            decreases n - i,
        {
            let time: u64 = self.entries.value_at(i).written_at_ms;
            if time < best_time {
                best = i;
                best_time = time;
            }
            i = i + 1;
        }
        proof {
            let m = self.entries@;
            let k = s[best as int].0;
            self.entries.lemma_at(best as int);
            self.entries.lemma_ascending();
            assert forall|o: K::Model| #[trigger]
                m.dom().contains(o) && o != k implies written_before::<K, V>(m, k, o) by {
                let j = self.entries.lemma_find(o);
                assert(best_time <= s[j].1.written_at_ms);
                if j > best {
                    assert(K::before(s[best as int].0, s[j].0));
                } else {
                    assert(best_time < s[j].1.written_at_ms);
                }
            }
            assert(is_oldest::<K, V>(m, k));
            lemma_oldest_unique::<K, V>(m, k, oldest::<K, V>(m));
        }
        best
    }
}

impl<K: OrderedKey, V: Clone> Default for TtlCache<K, V> {
    fn default() -> (r: Self)
        ensures
            r.wf(),
            r@.entries == Map::<K::Model, Entry<V>>::empty(),
            default_but_ttl(r@.config, DEFAULT_TTL_MS),
            r@.metrics == zero_metrics(),
    {
        Self::new(CacheConfig::with_ttl(DEFAULT_TTL_MS))
    }
}

/// The hit ratio is the share of hits in basis points, rounded down, and zero before any lookup.
pub proof fn law_hit_ratio_is_the_share(m: CacheMetrics)
    ensures
        m.hits == 0 && m.misses == 0 ==> hit_ratio(m) == 0,
        m.hits + m.misses > 0 ==> hit_ratio(m) * (m.hits + m.misses) <= m.hits * 10_000 < (hit_ratio(
            m,
        ) + 1) * (m.hits + m.misses),
{
    let n = m.hits + m.misses;
    let x = m.hits * 10_000;
    if n > 0 {
        vstd::arithmetic::div_mod::lemma_fundamental_div_mod(x, n);
        vstd::arithmetic::div_mod::lemma_mod_bound(x, n);
        let q = x / n;
        assert(n * q == q * n) by (nonlinear_arith);
        assert((q + 1) * n == q * n + n) by (nonlinear_arith);
    }
}

/// A cache with a lifetime of its own differs from the default one in nothing else: ten thousand
/// entries, a budget of 100 milliseconds and no Redis. A lifetime given with an entry goes before
/// it.
pub proof fn law_configuration_in_numbers(c: CacheConfig, ttl: u64, given: u64)
    requires
        default_but_ttl(c, ttl),
    ensures
        c.max_entries == 10_000,
        c.operation_budget_ms == 100,
        c.redis is None,
        effective_ttl(c, None) == ttl,
        effective_ttl(c, Some(given)) == given,
{
}

/// A lookup of an entry whose time is not over counts as a hit and changes no entry. Any other
/// counts as a miss, and removes the entry and counts it as expired if it is still there.
pub proof fn law_lookup_counts_hits_and_misses<M, V>(s: TtlState<M, V>, k: M, now: u64, other: M)
    requires
        other != k,
        s.metrics.hits < u64::MAX,
        s.metrics.misses < u64::MAX,
        s.metrics.expirations < u64::MAX,
    ensures
        ({
            let t = looked_up(s, k, now);
            let there = s.entries.dom().contains(k);
            let live = there && now < s.entries[k].expires_at_ms;
            &&& is_live(s, k, now) <==> live
            &&& live ==> t.entries == s.entries && t.metrics.hits == s.metrics.hits + 1
                && t.metrics.misses == s.metrics.misses && t.metrics.expirations
                == s.metrics.expirations
            &&& !live ==> !t.entries.dom().contains(k) && t.metrics.hits == s.metrics.hits
                && t.metrics.misses == s.metrics.misses + 1
            &&& !live && there ==> t.metrics.expirations == s.metrics.expirations + 1
            &&& !live && !there ==> t.metrics.expirations == s.metrics.expirations
            &&& t.metrics.writes == s.metrics.writes
            &&& t.metrics.evictions == s.metrics.evictions
            &&& t.entries.dom().contains(other) == s.entries.dom().contains(other)
            &&& t.entries[other] == s.entries[other]
            &&& t.config == s.config
        }),
{
}

/// Expiry removes the entries whose time is over, and no others, and counts them.
pub proof fn law_expiry_removes_what_is_over<M, V>(s: TtlState<M, V>, now: u64, k: M)
    requires
        s.entries.dom().finite(),
        s.metrics.expirations + s.entries.dom().len() <= u64::MAX,
    ensures
        ({
            let t = expired(s, now);
            &&& t.entries.dom().contains(k) <==> s.entries.dom().contains(k) && now
                < s.entries[k].expires_at_ms
            &&& t.entries.dom().contains(k) ==> t.entries[k] == s.entries[k]
            &&& t.metrics.expirations - s.metrics.expirations == s.entries.dom().len()
                - t.entries.dom().len()
            &&& t.metrics.hits == s.metrics.hits
            &&& t.metrics.misses == s.metrics.misses
            &&& t.metrics.writes == s.metrics.writes
            &&& t.metrics.evictions == s.metrics.evictions
            &&& t.config == s.config
        }),
{
    let t = expired(s, now);
    assert(t.entries.dom().subset_of(s.entries.dom()));
    vstd::set_lib::lemma_len_subset(t.entries.dom(), s.entries.dom());
}

proof fn lemma_oldest_exists<K: OrderedKey, V>(m: Map<K::Model, Entry<V>>)
    requires
        m.dom().finite(),
        m.dom().len() > 0,
    ensures
        exists|k: K::Model| is_oldest::<K, V>(m, k),
    decreases m.dom().len(),
{
    let k = m.dom().choose();
    let rest = m.remove(k);
    assert(rest.dom() =~= m.dom().remove(k));
    if rest.dom().len() == 0 {
        assert forall|o: K::Model| #[trigger] m.dom().contains(o) && o != k implies written_before::<
            K,
            V,
        >(m, k, o) by {
            assert(rest.dom().contains(o));
        }
        assert(is_oldest::<K, V>(m, k));
    } else {
        lemma_oldest_exists::<K, V>(rest);
        let o = choose|o: K::Model| is_oldest::<K, V>(rest, o);
        assert(rest.dom().contains(o));
        K::before_total(k, o);
        if written_before::<K, V>(m, o, k) {
            assert forall|p: K::Model| #[trigger]
                m.dom().contains(p) && p != o implies written_before::<K, V>(m, o, p) by {
                if p != k {
                    assert(rest.dom().contains(p));
                }
            }
            assert(is_oldest::<K, V>(m, o));
        } else {
            assert forall|p: K::Model| #[trigger]
                m.dom().contains(p) && p != k implies written_before::<K, V>(m, k, p) by {
                if p != o {
                    assert(rest.dom().contains(p));
                    assert(written_before::<K, V>(rest, o, p));
                    if K::before(k, o) && K::before(o, p) {
                        K::before_transitive(k, o, p);
                    }
                }
            }
            assert(is_oldest::<K, V>(m, k));
        }
    }
}

/// A write first lets go of what is over, then stores the value until its lifetime after now. Only
/// where that makes one entry too many does another go, exactly one, and one that no entry was
/// written before.
pub proof fn law_write_drives_out_the_oldest<K: OrderedKey, V>(
    s: TtlState<K::Model, V>,
    k: K::Model,
    value: V,
    now: u64,
    ttl_ms: u64,
)
    requires
        s.entries.dom().finite(),
        s.entries.dom().len() <= s.config.max_entries,
        now + ttl_ms <= u64::MAX,
        s.metrics.writes < u64::MAX,
        s.metrics.evictions < u64::MAX,
    ensures
        ({
            let t = written::<K, V>(s, k, value, now, Some(ttl_ms));
            let alive = expired(s, now).entries;
            let full = !alive.dom().contains(k) && alive.dom().len() == s.config.max_entries;
            &&& t.entries.dom().contains(k) ==> {
                &&& t.entries[k].value == value
                &&& t.entries[k].expires_at_ms == now + ttl_ms
                &&& t.entries[k].written_at_ms == now
            }
            &&& !full ==> t.entries.dom() == alive.dom().insert(k)
            &&& full ==> t.entries.dom().len() == s.config.max_entries
            &&& t.metrics.writes == s.metrics.writes + 1
            &&& t.metrics.evictions == s.metrics.evictions + (if full {
                1int
            } else {
                0int
            })
            &&& t.metrics.expirations == expired(s, now).metrics.expirations
            &&& t.metrics.hits == s.metrics.hits
            &&& t.metrics.misses == s.metrics.misses
            &&& t.config == s.config
            &&& forall|o: K::Model| #[trigger]
                t.entries.dom().contains(o) && o != k ==> alive.dom().contains(o) && t.entries[o]
                    == alive[o]
            &&& forall|o: K::Model, p: K::Model|
                #![trigger alive.dom().contains(o), alive.dom().contains(p)]
                o != k && alive.dom().contains(o) && !t.entries.dom().contains(o)
                    && alive.dom().contains(p) ==> full && alive[o].written_at_ms
                    <= alive[p].written_at_ms
        }),
{
    let alive = expired(s, now).entries;
    assert(alive.dom().subset_of(s.entries.dom()));
    vstd::set_lib::lemma_len_subset(alive.dom(), s.entries.dom());
    let entry = Entry { value, expires_at_ms: (now + ttl_ms) as u64, written_at_ms: now };
    let m = alive.insert(k, entry);
    assert(m.dom() =~= alive.dom().insert(k));
    if m.dom().len() > s.config.max_entries {
        lemma_oldest_exists::<K, V>(m);
        let e = oldest::<K, V>(m);
        assert(is_oldest::<K, V>(m, e));
        assert(m.remove(e).dom() =~= m.dom().remove(e));
        assert forall|o: K::Model, p: K::Model|
            #![trigger alive.dom().contains(o), alive.dom().contains(p)]
            o != k && alive.dom().contains(o) && !m.remove(e).dom().contains(o)
                && alive.dom().contains(p) implies alive[o].written_at_ms
            <= alive[p].written_at_ms by {
            assert(m.dom().contains(p) && m.dom().contains(o));
            assert(o == e);
            if p != e && p != k {
                assert(written_before::<K, V>(m, e, p));
            }
        }
    }
}

/// An entry lives for thirty seconds where nothing else is configured.
pub proof fn law_defaults_in_numbers()
    ensures
        DEFAULT_TTL_MS == 30_000,
        DEFAULT_OPERATION_BUDGET_MS == 100,
        zero_metrics().hits == 0,
        zero_metrics().misses == 0,
        zero_metrics().writes == 0,
        zero_metrics().evictions == 0,
        zero_metrics().expirations == 0,
{
}

} // verus!
