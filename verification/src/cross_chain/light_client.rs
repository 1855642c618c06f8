//! Light-client registry that ties per-chain config, header cache, committee sync, block-time
//! estimation and finality verification together and exports the `chain_finality_lag_ms` gauge
//! for every connected chain.

use vstd::prelude::*;

use crate::cross_chain::committee_sync::{attempted, drifted, CommitteeSyncState, SyncOutcome};
use crate::cross_chain::finality_verifier::{
    finality, law_finality_needs_weight_and_grace, FinalityDecision, FinalityVerifier,
};
use crate::cross_chain::header_cache::{
    finalized_tip, has_height, header_finalized, header_inserted, heights_distinct,
    law_finalized_tip_is_the_highest, law_insert_changes_one_height,
    law_marking_touches_one_header, HeaderCache, RecentHeader,
};
use crate::cross_chain::ibc::block_time_estimator::{
    header_observed, BlockTimeEstimator, EstimatorState,
};
use crate::cross_chain::types::{
    config_error, sync_timeout, ChainConfig, ChainId, CrossChainError, MAX_ACCEPTABLE_FINALITY_LAG_MS,
    MAX_CONNECTED_CHAINS,
};
use crate::ordered_map::{
    lemma_listing_mapped, lemma_mapped_insert, listing, mapped, OrderedMap,
};

verus! {

/// Per-chain finality metrics exported to dashboards and alerting.
#[derive(Clone, Debug, Eq, PartialEq)]
pub struct ChainFinalityMetrics {
    /// Identifier of the chain.
    pub chain_id: ChainId,
    /// Age of the latest finalized header as of the sample time, in milliseconds: the
    /// `chain_finality_lag_ms` gauge.
    pub finality_lag_ms: u64,
    /// Height of the latest finalized header, if any.
    pub finalized_height: Option<u64>,
    /// Whether the finality lag is within [`MAX_ACCEPTABLE_FINALITY_LAG_MS`].
    pub within_target: bool,
}

/// One chain tracked by the light client.
#[derive(Clone, Debug)]
pub struct ConnectedChain {
    /// Timing configuration for this chain.
    pub config: ChainConfig,
    /// Bounded cache of recently observed headers.
    pub cache: HeaderCache,
    /// Committee synchronization state.
    pub sync: CommitteeSyncState,
    /// Block-time estimator fed by the observed headers.
    pub block_time: BlockTimeEstimator,
    /// Height of the latest finalized header, if any.
    pub last_finalized_height: Option<u64>,
}

/// What the light client knows of a chain.
pub struct ChainState {
    pub config: ChainConfig,
    pub headers: Seq<RecentHeader>,
    pub sync: CommitteeSyncState,
    pub block_time: EstimatorState,
    pub finalized_height: Option<u64>,
}

impl View for ConnectedChain {
    type V = ChainState;

    open spec fn view(&self) -> ChainState {
        ChainState {
            config: self.config,
            headers: self.cache@,
            sync: self.sync,
            block_time: self.block_time@,
            finalized_height: self.last_finalized_height,
        }
    }
}

/// A chain that has just been connected.
pub open spec fn fresh_chain(config: ChainConfig, now: u64) -> ChainState {
    ChainState {
        config,
        headers: Seq::empty(),
        sync: CommitteeSyncState {
            chain_id: config.chain_id,
            last_sync_ms: now,
            consecutive_failures: 0,
            last_observed_skew_ms: 0,
        },
        block_time: EstimatorState {
            chain_id: config.chain_id,
            samples: Seq::empty(),
            write_ptr: 0,
            samples_written: 0,
            ema_ms: None,
            anchor: None,
            packets_issued: 0,
        },
        finalized_height: None,
    }
}

/// The chain after a header: it goes into the cache and to the block-time estimator.
pub open spec fn chain_after_header(s: ChainState, header: RecentHeader) -> ChainState {
    ChainState {
        headers: header_inserted(s.headers, header),
        block_time: header_observed(s.block_time, header.height, header.timestamp_ms),
        ..s
    }
}

/// Whether the latest header of a chain can be finalized.
pub open spec fn latest_decision(s: ChainState, now: u64) -> FinalityDecision {
    if s.headers.len() == 0 {
        FinalityDecision::InsufficientWeight
    } else {
        let h = s.headers.last();
        finality(
            s.config,
            h.attesting_weight,
            h.committee_weight,
            h.observed_at_ms,
            now,
            drifted(s.sync, s.config, now),
        )
    }
}

/// The chain after an attempt to finalize its latest header.
pub open spec fn chain_after_finalize(s: ChainState, now: u64) -> ChainState {
    if latest_decision(s, now) == FinalityDecision::Finalized {
        ChainState {
            headers: header_finalized(s.headers, s.headers.last().height),
            finalized_height: Some(s.headers.last().height),
            ..s
        }
    } else {
        s
    }
}

/// The age of the finalized tip.
pub open spec fn finality_lag(s: ChainState, now: u64) -> u64 {
    match finalized_tip(s.headers) {
        Some(h) => now.saturating_sub(h.timestamp_ms),
        None => 0,
    }
}

/// The metrics of a chain.
pub open spec fn chain_metrics(s: ChainState, now: u64) -> ChainFinalityMetrics {
    ChainFinalityMetrics {
        chain_id: s.config.chain_id,
        finality_lag_ms: finality_lag(s, now),
        finalized_height: s.finalized_height,
        within_target: finality_lag(s, now) <= MAX_ACCEPTABLE_FINALITY_LAG_MS,
    }
}

/// While the committee view has drifted, nothing is finalized before the grace period of the
/// latest header is over, however great its weight.
pub proof fn law_drift_withholds_finality(s: ChainState, now: u64)
    requires
        s.headers.len() > 0,
        drifted(s.sync, s.config, now),
        now < s.headers.last().observed_at_ms.saturating_add(
            crate::cross_chain::finality_verifier::grace_period(s.config),
        ),
    ensures
        latest_decision(s, now) != FinalityDecision::Finalized,
        chain_after_finalize(s, now) == s,
{
}

impl ConnectedChain {
    /// The header cache and the estimator are in order.
    pub open spec fn wf(&self) -> bool {
        &&& self.cache.wf()
        &&& self.block_time.wf()
    }

    /// Connects a chain as of `now_ms`.
    pub fn new(config: ChainConfig, now_ms: u64) -> (r: Self)
        ensures
            r.wf(),
            r@ == fresh_chain(config, now_ms),
    {
        let sync: CommitteeSyncState = CommitteeSyncState::new(config.chain_id.clone(), now_ms);
        let block_time: BlockTimeEstimator = BlockTimeEstimator::new(config.chain_id.clone());
        ConnectedChain {
            config,
            cache: HeaderCache::new(),
            sync,
            block_time,
            last_finalized_height: None,
        }
    }

    /// Records a header observed from the chain (after relay latency).
    pub fn observe_header(&mut self, header: RecentHeader)
        requires
            old(self).wf(),
        ensures
            final(self).wf(),
            final(self)@ == chain_after_header(old(self)@, header),
    {
        self.block_time.observe_header(header.height, header.timestamp_ms);
        self.cache.insert(header);
    }

    /// Records the outcome of a committee-sync attempt at `now_ms`.
    pub fn record_sync(&mut self, outcome: SyncOutcome, now_ms: u64)
        ensures
            old(self).wf() ==> final(self).wf(),
            final(self)@ == (ChainState {
                sync: attempted(old(self)@.sync, outcome, now_ms),
                ..old(self)@
            }),
    {
        self.sync.record_outcome(outcome, now_ms);
    }

    /// Returns `true` when this chain's committee view has drifted as of `now_ms`.
    pub fn drift_detected(&self, now_ms: u64) -> (r: bool)
        ensures
            r == drifted(self@.sync, self@.config, now_ms),
    {
        self.sync.drift_detected(&self.config, now_ms)
    }

    /// Attempts to finalize the latest observed header as of `now_ms`.
    ///
    /// On a [`Finalized`](FinalityDecision::Finalized) decision the header is marked finalized in
    /// the cache and becomes the chain's finalized tip.
    pub fn try_finalize_latest(&mut self, now_ms: u64) -> (r: FinalityDecision)
        requires
            old(self).wf(),
        ensures
            final(self).wf(),
            r == latest_decision(old(self)@, now_ms),
            final(self)@ == chain_after_finalize(old(self)@, now_ms),
    {
        let drift: bool = self.drift_detected(now_ms);
        let header: RecentHeader = match self.cache.latest() {
            Some(header) => *header,
            None => return FinalityDecision::InsufficientWeight,
        };
        let decision: FinalityDecision = FinalityVerifier::evaluate_finality(
            &self.config,
            header.attesting_weight,
            header.committee_weight,
            header.observed_at_ms,
            now_ms,
            drift,
        );
        if decision == FinalityDecision::Finalized {
            self.cache.mark_finalized(header.height);
            self.last_finalized_height = Some(header.height);
        }
        decision
    }

    /// Height of the latest finalized header, if any.
    pub fn finalized_height(&self) -> (r: Option<u64>)
        ensures
            r == self@.finalized_height,
    {
        self.last_finalized_height
    }

    /// `chain_finality_lag_ms` gauge: age of the latest finalized header as of `now_ms`. Returns
    /// `0` when no header has been finalized yet.
    pub fn finality_lag_ms(&self, now_ms: u64) -> (r: u64)
        requires
            self.wf(),
        ensures
            r == finality_lag(self@, now_ms),
    {
        match self.cache.latest_finalized() {
            Some(h) => now_ms.saturating_sub(h.timestamp_ms),
            None => 0,
        }
    }

    /// Builds the exported finality metrics for this chain as of `now_ms`.
    pub fn metrics(&self, now_ms: u64) -> (r: ChainFinalityMetrics)
        requires
            self.wf(),
        ensures
            r == chain_metrics(self@, now_ms),
    {
        let finality_lag_ms: u64 = self.finality_lag_ms(now_ms);
        ChainFinalityMetrics {
            chain_id: self.config.chain_id.clone(),
            finality_lag_ms,
            finalized_height: self.last_finalized_height,
            within_target: finality_lag_ms <= MAX_ACCEPTABLE_FINALITY_LAG_MS,
        }
    }
}

/// Registry of all chains a light client tracks.
#[derive(Clone, Debug)]
pub struct LightClientRegistry {
    chains: OrderedMap<ChainId, ConnectedChain>,
}

/// What a chain is known to be.
pub open spec fn chain_state() -> spec_fn(ConnectedChain) -> ChainState {
    |c: ConnectedChain| c@
}

/// Why a chain cannot be connected, if it cannot: the first of these that applies.
pub open spec fn connect_error(chains: Map<Seq<char>, ChainState>, config: ChainConfig) -> Option<
    CrossChainError,
> {
    if config_error(config) is Some {
        config_error(config)
    } else if chains.dom().contains(config.chain_id@) {
        Some(CrossChainError::ChainAlreadyConnected)
    } else if chains.dom().len() >= MAX_CONNECTED_CHAINS {
        Some(CrossChainError::TooManyChains)
    } else {
        None
    }
}

impl View for LightClientRegistry {
    type V = Map<Seq<char>, ChainState>;

    closed spec fn view(&self) -> Map<Seq<char>, ChainState> {
        mapped(self.chains@, chain_state())
    }
}

impl LightClientRegistry {
    /// There are no more chains than the registry may track, each in order and under its own
    /// identifier.
    pub closed spec fn wf(&self) -> bool {
        &&& self.chains.wf()
        &&& self.chains.count() <= MAX_CONNECTED_CHAINS
        &&& forall|id: Seq<char>| #[trigger]
            self.chains@.dom().contains(id) ==> self.chains@[id].wf()
                && self.chains@[id].config.chain_id@ == id
    }

    proof fn lemma_size(&self)
        requires
            self.chains.wf(),
        ensures
            self@.dom().finite(),
            self@.dom().len() == self.chains.count(),
    {
        self.chains.lemma_ascending();
        crate::ordered_map::lemma_map_size::<ChainId, ConnectedChain>(self.chains.entries());
        assert(self@.dom() =~= self.chains@.dom());
    }

    /// The registry never tracks more chains than it may.
    pub proof fn law_bounded(&self)
        requires
            self.wf(),
        ensures
            self@.dom().finite(),
            self@.dom().len() <= MAX_CONNECTED_CHAINS,
    {
        self.lemma_size();
    }

    /// Every chain stands under its own identifier.
    pub proof fn law_chains_under_own_id(&self, id: Seq<char>)
        requires
            self.wf(),
            self@.dom().contains(id),
        ensures
            self@[id].config.chain_id@ == id,
    {
    }

    /// Creates an empty registry.
    pub fn new() -> (r: Self)
        ensures
            r.wf(),
            r@ == Map::<Seq<char>, ChainState>::empty(),
    {
        let r = LightClientRegistry { chains: OrderedMap::new() };
        assert(r@ =~= Map::<Seq<char>, ChainState>::empty());
        r
    }

    /// Connects a chain as of `now_ms`.
    ///
    /// Returns an error if the configuration is invalid, the registry is at capacity, or the chain
    /// is already connected.
    pub fn connect(&mut self, config: ChainConfig, now_ms: u64) -> (r: Result<(), CrossChainError>)
        requires
            old(self).wf(),
        ensures
            final(self).wf(),
            r == match connect_error(old(self)@, config) {
                Some(e) => Err(e),
                None => Ok(()),
            },
            final(self)@ == if r is Ok {
                old(self)@.insert(config.chain_id@, fresh_chain(config, now_ms))
            } else {
                old(self)@
            },
    {
        proof {
            self.lemma_size();
        }
        match config.validate() {
            Ok(()) => {},
            Err(e) => {
                return Err(e);
            },
        }
        if self.chains.contains_key(&config.chain_id) {
            return Err(CrossChainError::ChainAlreadyConnected);
        }
        if self.chains.len() >= MAX_CONNECTED_CHAINS {
            return Err(CrossChainError::TooManyChains);
        }
        let chain_id: ChainId = config.chain_id.clone();
        let chain: ConnectedChain = ConnectedChain::new(config, now_ms);
        proof {
            lemma_mapped_insert(self.chains@, chain_id@, chain, chain_state());
        }
        self.chains.insert(chain_id, chain);
        Ok(())
    }

    /// Returns a reference to a connected chain.
    pub fn chain(&self, chain_id: &str) -> (r: Option<&ConnectedChain>)
        requires
            self.wf(),
        ensures
            r is Some <==> self@.dom().contains(chain_id@),
            r matches Some(c) ==> c.wf() && c@ == self@[chain_id@],
    {
        self.chains.get_text(chain_id)
    }

    /// Returns a mutable reference to a connected chain.
    pub fn chain_mut(&mut self, chain_id: &str) -> (r: Option<&mut ConnectedChain>)
        requires
            old(self).wf(),
        ensures
            r is Some <==> old(self)@.dom().contains(chain_id@),
            match r {
                Some(c) => {
                    &&& c.wf()
                    &&& c@ == old(self)@[chain_id@]
                    &&& final(self)@ == old(self)@.insert(chain_id@, final(c)@)
                    &&& (final(c).wf() && final(c)@.config.chain_id@ == chain_id@)
                        ==> final(self).wf()
                },
                None => *final(self) == *old(self),
            },
    {
        let ghost m = self.chains@;
        let r = self.chains.get_mut_text(chain_id);
        proof {
            if let Some(c) = &r {
                let after = *final(*c);
                lemma_mapped_insert(m, chain_id@, after, chain_state());
            }
        }
        r
    }

    /// Records a header observation for a connected chain.
    pub fn observe_header(&mut self, chain_id: &str, header: RecentHeader) -> (r: Result<
        (),
        CrossChainError,
    >)
        requires
            old(self).wf(),
        ensures
            final(self).wf(),
            old(self)@.dom().contains(chain_id@) ==> {
                &&& r is Ok
                &&& final(self)@ == old(self)@.insert(
                    chain_id@,
                    chain_after_header(old(self)@[chain_id@], header),
                )
            },
            !old(self)@.dom().contains(chain_id@) ==> {
                &&& r == Err::<(), _>(CrossChainError::ChainNotFound)
                &&& final(self)@ == old(self)@
            },
    {
        proof {
            if self@.dom().contains(chain_id@) {
                self.law_chains_under_own_id(chain_id@);
            }
        }
        match self.chain_mut(chain_id) {
            Some(chain) => {
                chain.observe_header(header);
                Ok(())
            },
            None => Err(CrossChainError::ChainNotFound),
        }
    }

    /// Attempts to finalize the latest observed header for a connected chain.
    pub fn try_finalize(&mut self, chain_id: &str, now_ms: u64) -> (r: Result<
        FinalityDecision,
        CrossChainError,
    >)
        requires
            old(self).wf(),
        ensures
            final(self).wf(),
            old(self)@.dom().contains(chain_id@) ==> {
                &&& r == Ok::<_, CrossChainError>(latest_decision(old(self)@[chain_id@], now_ms))
                &&& final(self)@ == old(self)@.insert(
                    chain_id@,
                    chain_after_finalize(old(self)@[chain_id@], now_ms),
                )
            },
            !old(self)@.dom().contains(chain_id@) ==> {
                &&& r == Err::<FinalityDecision, _>(CrossChainError::ChainNotFound)
                &&& final(self)@ == old(self)@
            },
    {
        proof {
            if self@.dom().contains(chain_id@) {
                self.law_chains_under_own_id(chain_id@);
            }
        }
        match self.chain_mut(chain_id) {
            Some(chain) => Ok(chain.try_finalize_latest(now_ms)),
            None => Err(CrossChainError::ChainNotFound),
        }
    }

    /// Number of connected chains.
    pub fn connected_count(&self) -> (r: usize)
        requires
            self.wf(),
        ensures
            r == self@.dom().len(),
    {
        proof {
            self.lemma_size();
        }
        self.chains.len()
    }

    /// Per-chain `chain_finality_lag_ms` gauges as of `now_ms`, ordered by chain identifier.
    pub fn finality_lag_gauges(&self, now_ms: u64) -> (r: Vec<ChainFinalityMetrics>)
        requires
            self.wf(),
        ensures
            r@.len() == self@.dom().len(),
            r@ == listing::<ChainId, ChainState>(self@).map_values(
                |e: (Seq<char>, ChainState)| chain_metrics(e.1, now_ms),
            ),
    {
        let ghost s = self.chains.entries();
        let mut gauges: Vec<ChainFinalityMetrics> = Vec::new();
        let n: usize = self.chains.len();
        let mut i: usize = 0;
        while i < n
            invariant
                self.wf(),
                s == self.chains.entries(),
                n == s.len(),
                i <= n,
                gauges@.len() == i,
                forall|j: int|
                    0 <= j < i ==> #[trigger] gauges@[j] == chain_metrics(s[j].1@, now_ms),
            decreases n - i,
        {
            proof {
                self.chains.lemma_at(i as int);
            }
            gauges.push(self.chains.value_at(i).metrics(now_ms));
            i = i + 1;
        }
        proof {
            self.lemma_size();
            self.chains.lemma_ascending();
            lemma_listing_mapped::<ChainId, ConnectedChain, ChainState>(s, chain_state());
            assert(gauges@ =~= listing::<ChainId, ChainState>(self@).map_values(
                |e: (Seq<char>, ChainState)| chain_metrics(e.1, now_ms),
            ));
        }
        gauges
    }

    /// Largest finality lag across all connected chains as of `now_ms`; zero without chains.
    pub fn max_finality_lag_ms(&self, now_ms: u64) -> (r: u64)
        requires
            self.wf(),
        ensures
            forall|id: Seq<char>| #[trigger]
                self@.dom().contains(id) ==> finality_lag(self@[id], now_ms) <= r,
            r == 0 || exists|id: Seq<char>| #[trigger]
                self@.dom().contains(id) && finality_lag(self@[id], now_ms) == r,
    {
        let ghost s = self.chains.entries();
        let n: usize = self.chains.len();
        let mut worst: u64 = 0;
        let mut i: usize = 0;
        while i < n
            invariant
                self.wf(),
                s == self.chains.entries(),
                n == s.len(),
                i <= n,
                forall|j: int| 0 <= j < i ==> finality_lag((#[trigger] s[j]).1@, now_ms) <= worst,
                worst == 0 || exists|id: Seq<char>| #[trigger]
                    self@.dom().contains(id) && finality_lag(self@[id], now_ms) == worst,
            decreases n - i,
        {
            proof {
                self.chains.lemma_at(i as int);
            }
            let lag: u64 = self.chains.value_at(i).finality_lag_ms(now_ms);
            if lag > worst {
                worst = lag;
                assert(self@.dom().contains(s[i as int].0));
            }
            i = i + 1;
        }
        proof {
            assert forall|id: Seq<char>| #[trigger] self@.dom().contains(id) implies finality_lag(
                self@[id],
                now_ms,
            ) <= worst by {
                let j = self.chains.lemma_find(id);
                assert(finality_lag(s[j].1@, now_ms) <= worst);
            }
        }
        worst
    }

    /// Returns `true` when every connected chain's finality lag is within
    /// [`MAX_ACCEPTABLE_FINALITY_LAG_MS`] as of `now_ms`.
    pub fn all_within_target(&self, now_ms: u64) -> (r: bool)
        requires
            self.wf(),
        ensures
            r == (forall|id: Seq<char>| #[trigger]
                self@.dom().contains(id) ==> finality_lag(self@[id], now_ms)
                    <= MAX_ACCEPTABLE_FINALITY_LAG_MS),
    {
        let worst: u64 = self.max_finality_lag_ms(now_ms);
        worst <= MAX_ACCEPTABLE_FINALITY_LAG_MS
    }
}

impl Default for LightClientRegistry {
    fn default() -> (r: Self)
        ensures
            r.wf(),
            r@ == Map::<Seq<char>, ChainState>::empty(),
    {
        Self::new()
    }
}

/// An attempt to finalize decides by the latest header: more than two thirds of its weight attest
/// to it, and under drift one and a half sync timeouts have passed since it was observed. Where it
/// decides so, the latest header becomes the finalized tip, whatever was before, and is marked; no
/// other header changes. Otherwise nothing changes.
pub proof fn law_finalizing_moves_the_tip_to_the_latest(s: ChainState, now: u64)
    requires
        heights_distinct(s.headers),
        s.headers.len() > 0 ==> s.headers.last().observed_at_ms + sync_timeout(s.config)
            + sync_timeout(s.config) / 2 <= u64::MAX,
    ensures
        ({
            let t = chain_after_finalize(s, now);
            let n = s.headers.len() - 1;
            let h = s.headers[n];
            let grace = sync_timeout(s.config) + sync_timeout(s.config) / 2;
            let finalizes = s.headers.len() > 0 && 3 * h.attesting_weight > 2 * h.committee_weight
                && (drifted(s.sync, s.config, now) ==> now >= h.observed_at_ms + grace);
            &&& latest_decision(s, now) == FinalityDecision::Finalized <==> finalizes
            &&& !finalizes ==> t == s
            &&& finalizes ==> {
                &&& t.finalized_height == Some(h.height)
                &&& t.headers.len() == s.headers.len()
                &&& t.headers[n].finalized
                &&& t.headers[n].height == h.height
                &&& t.headers[n].timestamp_ms == h.timestamp_ms
                &&& forall|i: int| 0 <= i < n ==> #[trigger] t.headers[i] == s.headers[i]
                &&& t.config == s.config
                &&& t.sync == s.sync
                &&& t.block_time == s.block_time
            }
        }),
{
    let n = s.headers.len() - 1;
    if s.headers.len() > 0 {
        let h = s.headers[n];
        law_finality_needs_weight_and_grace(
            s.config,
            h.attesting_weight,
            h.committee_weight,
            h.observed_at_ms,
            now,
            drifted(s.sync, s.config, now),
        );
        assert forall|i: int| 0 <= i < n implies #[trigger] header_finalized(
            s.headers,
            h.height,
        )[i] == s.headers[i] by {
            law_marking_touches_one_header(s.headers, h.height, i);
        }
        law_marking_touches_one_header(s.headers, h.height, n);
    }
}

/// A new header that is attested to by more than two thirds, on a chain without drift, is
/// finalized at once and moves the finalized height to its own.
pub proof fn law_new_header_becomes_the_tip(s: ChainState, header: RecentHeader, now: u64)
    requires
        heights_distinct(s.headers),
        s.headers.len() <= 256,
        !has_height(s.headers, header.height),
        3 * header.attesting_weight > 2 * header.committee_weight,
        !drifted(s.sync, s.config, now),
        header.observed_at_ms + sync_timeout(s.config) + sync_timeout(s.config) / 2 <= u64::MAX,
    ensures
        ({
            let u = chain_after_header(s, header);
            let t = chain_after_finalize(u, now);
            &&& u.finalized_height == s.finalized_height
            &&& latest_decision(u, now) == FinalityDecision::Finalized
            &&& t.finalized_height == Some(header.height)
            &&& chain_metrics(t, now).finalized_height == Some(header.height)
        }),
{
    law_insert_changes_one_height(s.headers, header);
    let u = chain_after_header(s, header);
    assert(u.headers.last() == header);
    law_finality_needs_weight_and_grace(
        s.config,
        header.attesting_weight,
        header.committee_weight,
        header.observed_at_ms,
        now,
        false,
    );
}

/// The finality lag is the age of the highest finalized header, or zero without one, and is within
/// the target up to ten seconds.
pub proof fn law_lag_is_the_age_of_the_tip(s: ChainState, i: int, now: u64)
    requires
        heights_distinct(s.headers),
        0 <= i < s.headers.len(),
        s.headers[i].finalized,
        forall|j: int|
            0 <= j < s.headers.len() && (#[trigger] s.headers[j]).finalized ==> s.headers[j].height
                <= s.headers[i].height,
    ensures
        ({
            let m = chain_metrics(s, now);
            &&& now >= s.headers[i].timestamp_ms ==> m.finality_lag_ms == now
                - s.headers[i].timestamp_ms
            &&& now < s.headers[i].timestamp_ms ==> m.finality_lag_ms == 0
            &&& m.within_target <==> m.finality_lag_ms <= 10_000
            &&& m.chain_id == s.config.chain_id
            &&& m.finalized_height == s.finalized_height
        }),
{
    law_finalized_tip_is_the_highest(s.headers);
    let h = finalized_tip(s.headers)->0;
    let k = choose|k: int| 0 <= k < s.headers.len() && s.headers[k] == h;
    assert(s.headers[k].height == s.headers[i].height);
}

/// Without a finalized header there is no lag.
pub proof fn law_no_lag_without_finality(s: ChainState, now: u64)
    requires
        forall|j: int| 0 <= j < s.headers.len() ==> !(#[trigger] s.headers[j]).finalized,
    ensures
        chain_metrics(s, now).finality_lag_ms == 0,
        chain_metrics(s, now).within_target,
{
}

/// A chain can be connected if and only if its configuration is valid, its identifier is new and
/// fewer than 64 chains are connected.
pub proof fn law_connecting_needs_room_and_a_new_id(
    chains: Map<Seq<char>, ChainState>,
    config: ChainConfig,
)
    ensures
        connect_error(chains, config) is None <==> config.chain_id@.len() > 0
            && config.block_time_ms > 0 && config.committee_size > 0 && !chains.dom().contains(
            config.chain_id@,
        ) && chains.dom().len() < 64,
        chains.dom().contains(config.chain_id@) && config_error(config) is None ==> connect_error(
            chains,
            config,
        ) == Some(CrossChainError::ChainAlreadyConnected),
        !chains.dom().contains(config.chain_id@) && config_error(config) is None
            && chains.dom().len() >= 64 ==> connect_error(chains, config) == Some(
            CrossChainError::TooManyChains,
        ),
        config_error(config) is Some ==> connect_error(chains, config) == config_error(config),
{
}

/// A chain that was just connected has no headers, no finalized height and no samples; its
/// committee counts as synced now, without failures or skew.
pub proof fn law_fresh_chain_is_empty(config: ChainConfig, now: u64)
    ensures
        ({
            let s = fresh_chain(config, now);
            &&& s.config == config
            &&& s.headers.len() == 0
            &&& s.finalized_height is None
            &&& s.sync.chain_id == config.chain_id
            &&& s.sync.last_sync_ms == now
            &&& s.sync.consecutive_failures == 0
            &&& s.sync.last_observed_skew_ms == 0
            &&& s.block_time.chain_id == config.chain_id
            &&& s.block_time.samples.len() == 0
            &&& s.block_time.write_ptr == 0
            &&& s.block_time.samples_written == 0
            &&& s.block_time.ema_ms is None
            &&& s.block_time.anchor is None
            &&& s.block_time.packets_issued == 0
        }),
{
}

} // verus!
