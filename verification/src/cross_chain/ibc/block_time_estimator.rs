//! Per-chain block-time estimation for IBC packet timeouts.
//!
//! The estimator keeps a 100-sample sliding window and an exponential moving average (EMA), and
//! gives each derived statistic one job: the window mean is the divisor in the timeout formula,
//! the p95 is the tail and dispersion signal, and the EMA tracks a change of regime fast and
//! re-seeds the window on recalibration.

use vstd::prelude::*;
use vstd::relations::{sorted_by, total_ordering};

use crate::arith::{greatest, least};
use crate::cross_chain::types::{ChainConfig, ChainId, BPS_DENOMINATOR};

verus! {

/// Number of block-time samples retained per chain in the sliding window.
pub const BLOCK_TIME_WINDOW_SAMPLES: usize = 100;

/// EMA smoothing factor in basis points: `3_000 bps = alpha 0.3`.
pub const BLOCK_TIME_EMA_ALPHA_BPS: u64 = 3_000;

/// Percentile used as the tail / dispersion statistic.
pub const BLOCK_TIME_TAIL_PERCENTILE: u64 = 95;

/// `a` divided by `b`, rounded up.
pub open spec fn ceil_div(a: int, b: int) -> int
    recommends
        b > 0,
{
    (a + b - 1) / b
}

/// The place of the nearest-rank percentile `p` in an ascending list of `n` elements.
pub open spec fn nearest_rank(p: u64, n: nat) -> int {
    least(greatest(ceil_div(p * n, 100), 1) - 1, n - 1)
}

/// Ascending order.
pub open spec fn ascending_order() -> spec_fn(u64, u64) -> bool {
    |a: u64, b: u64| a <= b
}

/// The samples in ascending order.
pub open spec fn sorted_samples(s: Seq<u64>) -> Seq<u64> {
    s.sort_by(ascending_order())
}

/// The sum of some samples.
pub open spec fn sum_of(s: Seq<u64>) -> nat
    decreases s.len(),
{
    if s.len() == 0 {
        0
    } else {
        sum_of(s.drop_last()) + s.last() as nat
    }
}

/// The arithmetic mean of some samples, rounded down.
pub open spec fn mean_of(s: Seq<u64>) -> int {
    sum_of(s) as int / s.len() as int
}

/// The nearest-rank percentile of some samples.
pub open spec fn percentile_of(s: Seq<u64>, p: u64) -> u64 {
    sorted_samples(s)[nearest_rank(p, s.len())]
}

/// One EMA step, rounded to nearest.
pub open spec fn ema_stepped(prev: u64, sample: u64) -> u64 {
    ((BLOCK_TIME_EMA_ALPHA_BPS * sample + (BPS_DENOMINATOR - BLOCK_TIME_EMA_ALPHA_BPS) * prev
        + BPS_DENOMINATOR / 2) / BPS_DENOMINATOR as int) as u64
}

/// Sliding-window block-time estimator for one chain.
///
/// Samples arrive from the header pipeline via [`BlockTimeEstimator::observe_header`].
#[derive(Clone, Debug, Eq, PartialEq)]
pub struct BlockTimeEstimator {
    /// Identifier of the chain this estimator tracks.
    pub chain_id: ChainId,
    /// Ring buffer of the most recent block-time samples, in milliseconds.
    pub samples: Vec<u64>,
    /// Next slot to write in `samples` once the ring is full.
    pub write_ptr: usize,
    /// Total samples ever recorded (saturating).
    pub samples_written: u64,
    /// Exponential moving average of the block time, in milliseconds. `None` until the first
    /// sample seeds it.
    pub ema_ms: Option<u64>,
    /// `(height, timestamp_ms)` of the last header that anchored a sample.
    pub anchor: Option<(u64, u64)>,
    /// Number of packet timeouts issued against this chain, driving the cold-start safety margin.
    pub packets_issued: u32,
}

/// What an estimator knows.
pub struct EstimatorState {
    pub chain_id: ChainId,
    pub samples: Seq<u64>,
    pub write_ptr: usize,
    pub samples_written: u64,
    pub ema_ms: Option<u64>,
    pub anchor: Option<(u64, u64)>,
    pub packets_issued: u32,
}

impl View for BlockTimeEstimator {
    type V = EstimatorState;

    open spec fn view(&self) -> EstimatorState {
        EstimatorState {
            chain_id: self.chain_id,
            samples: self.samples@,
            write_ptr: self.write_ptr,
            samples_written: self.samples_written,
            ema_ms: self.ema_ms,
            anchor: self.anchor,
            packets_issued: self.packets_issued,
        }
    }
}

/// The ring is in order: at most a full window of positive samples, the next slot behind the last
/// one while the ring fills up, and a positive EMA as soon as there is a sample.
pub open spec fn estimator_ok(e: EstimatorState) -> bool {
    &&& e.samples.len() <= BLOCK_TIME_WINDOW_SAMPLES
    &&& e.write_ptr < BLOCK_TIME_WINDOW_SAMPLES
    &&& e.samples.len() < BLOCK_TIME_WINDOW_SAMPLES ==> e.write_ptr == e.samples.len()
    &&& forall|i: int| 0 <= i < e.samples.len() ==> #[trigger] e.samples[i] > 0
    &&& e.samples.len() > 0 ==> e.ema_ms is Some
    &&& e.ema_ms matches Some(v) ==> v > 0
}

/// The samples from the oldest to the latest.
pub open spec fn window(e: EstimatorState) -> Seq<u64> {
    if e.samples.len() < BLOCK_TIME_WINDOW_SAMPLES {
        e.samples
    } else {
        e.samples.skip(e.write_ptr as int) + e.samples.take(e.write_ptr as int)
    }
}

/// The estimator after one more sample.
pub open spec fn sampled(e: EstimatorState, sample: u64) -> EstimatorState {
    if sample == 0 {
        e
    } else {
        EstimatorState {
            ema_ms: Some(
                match e.ema_ms {
                    None => sample,
                    Some(prev) => ema_stepped(prev, sample),
                },
            ),
            samples: if e.samples.len() < BLOCK_TIME_WINDOW_SAMPLES {
                e.samples.push(sample)
            } else {
                e.samples.update(e.write_ptr as int, sample)
            },
            write_ptr: ((e.write_ptr + 1) % BLOCK_TIME_WINDOW_SAMPLES as int) as usize,
            samples_written: e.samples_written.saturating_add(1),
            ..e
        }
    }
}

/// The header follows the anchor directly, with a later timestamp.
pub open spec fn yields_sample(e: EstimatorState, height: u64, timestamp_ms: u64) -> bool {
    e.anchor matches Some((h, t)) && height == h + 1 && timestamp_ms > t
}

/// The estimator after a header: a sample is taken from a direct successor of the anchor, and any
/// greater height becomes the new anchor.
pub open spec fn header_observed(e: EstimatorState, height: u64, timestamp_ms: u64) -> EstimatorState {
    let s = if yields_sample(e, height, timestamp_ms) {
        sampled(e, (timestamp_ms - (e.anchor->0).1) as u64)
    } else {
        e
    };
    if e.anchor is Some && height <= (e.anchor->0).0 {
        s
    } else {
        EstimatorState { anchor: Some((height, timestamp_ms)), ..s }
    }
}

/// The mean of the window, if there is a sample.
pub open spec fn window_mean(e: EstimatorState) -> Option<u64> {
    if e.samples.len() == 0 {
        None
    } else {
        Some(mean_of(e.samples) as u64)
    }
}

/// The block time that the timeout formula divides by: the window mean, else the EMA, else the
/// configured block time; at least one.
pub open spec fn block_time(e: EstimatorState, c: ChainConfig) -> u64 {
    greatest(
        (match window_mean(e) {
            Some(m) => m,
            None => match e.ema_ms {
                Some(v) => v,
                None => c.block_time_ms,
            },
        }) as int,
        1,
    ) as u64
}

/// The nearest-rank percentile of the window, if there is a sample.
pub open spec fn percentile(e: EstimatorState, p: u64) -> Option<u64> {
    if e.samples.len() == 0 {
        None
    } else {
        Some(percentile_of(e.samples, p))
    }
}

/// The dispersion of the window: p95 over mean, in basis points.
pub open spec fn dispersion(e: EstimatorState, c: ChainConfig) -> u64 {
    match percentile(e, BLOCK_TIME_TAIL_PERCENTILE) {
        None => BPS_DENOMINATOR,
        Some(p95) => (p95 * BPS_DENOMINATOR / block_time(e, c) as int) as u64,
    }
}

/// The estimator after recalibration: the EMA is the only sample left.
pub open spec fn reseeded(e: EstimatorState) -> EstimatorState {
    match e.ema_ms {
        None => e,
        Some(seed) => EstimatorState { samples: seq![seed], write_ptr: 1, ..e },
    }
}

/// An EMA step never leaves the span between the previous value and the sample.
pub proof fn law_ema_stays_between(prev: u64, sample: u64)
    ensures
        least(prev as int, sample as int) <= ema_stepped(prev, sample) <= greatest(
            prev as int,
            sample as int,
        ),
{
}

/// A constant input is an exact fixed point of the EMA.
pub proof fn law_ema_fixed_point(value: u64)
    ensures
        ema_stepped(value, value) == value,
{
    law_ema_stays_between(value, value);
}

/// The window slides: one more sample goes to its end, and the oldest goes where it was full.
pub proof fn law_window_slides(e: EstimatorState, sample: u64)
    requires
        estimator_ok(e),
        sample > 0,
    ensures
        estimator_ok(sampled(e, sample)),
        window(sampled(e, sample)) == if e.samples.len() < BLOCK_TIME_WINDOW_SAMPLES {
            window(e).push(sample)
        } else {
            window(e).drop_first().push(sample)
        },
{
    let t = sampled(e, sample);
    if e.ema_ms is Some {
        law_ema_stays_between(e.ema_ms->0, sample);
    }
    if e.samples.len() < BLOCK_TIME_WINDOW_SAMPLES {
        assert(window(t) =~= window(e).push(sample));
    } else {
        assert(window(t) =~= window(e).drop_first().push(sample));
    }
}

/// Re-observing a height, a gap between heights, or a clock that does not advance never makes a
/// sample.
pub proof fn law_only_successors_are_sampled(e: EstimatorState, height: u64, timestamp_ms: u64)
    requires
        e.anchor is None || height != (e.anchor->0).0 + 1 || timestamp_ms <= (e.anchor->0).1,
    ensures
        header_observed(e, height, timestamp_ms).samples == e.samples,
        header_observed(e, height, timestamp_ms).ema_ms == e.ema_ms,
{
}

proof fn lemma_sum_bounds(s: Seq<u64>, i: int)
    requires
        forall|j: int| 0 <= j < s.len() ==> #[trigger] s[j] > 0,
        0 <= i < s.len(),
    ensures
        s[i] + s.len() - 1 <= sum_of(s),
        s.len() <= sum_of(s) <= s.len() * u64::MAX,
    decreases s.len(),
{
    let init = s.drop_last();
    assert forall|j: int| 0 <= j < init.len() implies #[trigger] init[j] > 0 by {
        assert(s[j] > 0);
    }
    if init.len() > 0 {
        let k = if i < init.len() {
            i
        } else {
            0
        };
        lemma_sum_bounds(init, k);
        assert(s.len() * u64::MAX == init.len() * u64::MAX + u64::MAX) by (nonlinear_arith)
            requires
                s.len() == init.len() + 1,
        ;
    } else {
        assert(sum_of(init) == 0);
    }
}

/// The mean of positive samples is positive and fits.
proof fn lemma_mean_bounds(s: Seq<u64>)
    requires
        forall|j: int| 0 <= j < s.len() ==> #[trigger] s[j] > 0,
        s.len() > 0,
    ensures
        1 <= mean_of(s) <= u64::MAX,
{
    lemma_sum_bounds(s, 0);
    let n = s.len() as int;
    let t = sum_of(s) as int;
    assert(1 <= t / n <= u64::MAX) by (nonlinear_arith)
        requires
            n > 0,
            n <= t <= n * u64::MAX,
    ;
}

/// No sample exceeds the mean times the number of samples.
proof fn lemma_sample_within_mean(s: Seq<u64>, i: int)
    requires
        forall|j: int| 0 <= j < s.len() ==> #[trigger] s[j] > 0,
        0 <= i < s.len(),
    ensures
        s[i] <= mean_of(s) * s.len(),
{
    lemma_sum_bounds(s, i);
    let n = s.len() as int;
    let t = sum_of(s) as int;
    vstd::arithmetic::div_mod::lemma_fundamental_div_mod(t, n);
    assert(n * (t / n) == (t / n) * n) by (nonlinear_arith);
}

proof fn lemma_ascending_total()
    ensures
        total_ordering(ascending_order()),
{
}

/// Sorting keeps the samples: what stands in the sorted list is a sample.
proof fn lemma_sorted_samples(s: Seq<u64>)
    ensures
        sorted_samples(s).len() == s.len(),
        forall|i: int| 0 <= i < s.len() ==> s.contains(#[trigger] sorted_samples(s)[i]),
{
    lemma_ascending_total();
    s.lemma_sort_by_ensures(ascending_order());
    s.to_multiset_ensures();
    sorted_samples(s).to_multiset_ensures();
    assert forall|i: int| 0 <= i < s.len() implies s.contains(#[trigger] sorted_samples(s)[i]) by {
        assert(sorted_samples(s).contains(sorted_samples(s)[i]));
    }
}

/// A percentile is a block time that the chain actually produced.
pub proof fn law_percentile_is_a_sample(s: Seq<u64>, p: u64)
    requires
        s.len() > 0,
    ensures
        s.contains(percentile_of(s, p)),
        0 <= nearest_rank(p, s.len()) < s.len(),
{
    lemma_sorted_samples(s);
    let n = s.len() as int;
    assert(0 <= p * n) by (nonlinear_arith)
        requires
            n >= 0,
    ;
}

/// A greater percentile is never smaller.
pub proof fn law_percentiles_are_ordered(s: Seq<u64>, p: u64, q: u64)
    requires
        s.len() > 0,
        p <= q,
    ensures
        percentile_of(s, p) <= percentile_of(s, q),
{
    lemma_ascending_total();
    s.lemma_sort_by_ensures(ascending_order());
    law_percentile_is_a_sample(s, p);
    law_percentile_is_a_sample(s, q);
    lemma_sorted_samples(s);
    let n = s.len() as int;
    assert(p * n <= q * n) by (nonlinear_arith)
        requires
            p <= q,
            n >= 0,
    ;
    let i = nearest_rank(p, s.len());
    let j = nearest_rank(q, s.len());
    assert(i <= j);
    if i < j {
        let leq = ascending_order();
        assert(leq(sorted_samples(s)[i], sorted_samples(s)[j]));
    }
}

/// A window of equal samples has no dispersion.
pub proof fn law_uniform_chain_has_unit_dispersion(e: EstimatorState, c: ChainConfig, value: u64)
    requires
        estimator_ok(e),
        e.samples.len() > 0,
        forall|i: int| 0 <= i < e.samples.len() ==> #[trigger] e.samples[i] == value,
    ensures
        block_time(e, c) == value,
        dispersion(e, c) == BPS_DENOMINATOR,
{
    let s = e.samples;
    lemma_uniform_sum(s, value);
    let n = s.len() as int;
    assert(s[0] > 0);
    assert((value * n) / n == value) by (nonlinear_arith)
        requires
            n > 0,
    ;
    law_percentile_is_a_sample(s, BLOCK_TIME_TAIL_PERCENTILE);
    assert((value * BPS_DENOMINATOR) / (value as int) == BPS_DENOMINATOR) by (nonlinear_arith)
        requires
            value > 0,
    ;
}

proof fn lemma_uniform_sum(s: Seq<u64>, value: u64)
    requires
        forall|i: int| 0 <= i < s.len() ==> #[trigger] s[i] == value,
    ensures
        sum_of(s) == value * s.len(),
    decreases s.len(),
{
    if s.len() > 0 {
        let init = s.drop_last();
        assert forall|i: int| 0 <= i < init.len() implies #[trigger] init[i] == value by {
            assert(s[i] == value);
        }
        lemma_uniform_sum(init, value);
        assert(s[s.len() - 1] == value);
        assert(value * s.len() == value * init.len() + value) by (nonlinear_arith)
            requires
                s.len() == init.len() + 1,
        ;
    } else {
        assert(value * s.len() == 0) by (nonlinear_arith)
            requires
                s.len() == 0,
        ;
    }
}

/// The place of the nearest-rank percentile `p` in an ascending list of `n` elements.
fn nearest_rank_index(p: u64, n: usize) -> (r: usize)
    requires
        0 < n <= BLOCK_TIME_WINDOW_SAMPLES,
    ensures
        r == nearest_rank(p, n as nat),
        r < n,
{
    proof {
        assert(0 <= p * n <= 0xffff_ffff_ffff_ffff * 100) by (nonlinear_arith)
            requires
                0 <= p <= 0xffff_ffff_ffff_ffff,
                0 <= n <= 100,
        ;
    }
    let rank: u128 = (p as u128 * n as u128 + 99) / 100;
    if rank <= 1 {
        0
    } else if rank - 1 >= n as u128 {
        n - 1
    } else {
        (rank - 1) as usize
    }
}

/// The samples in ascending order.
fn sorted_copy(samples: &Vec<u64>) -> (r: Vec<u64>)
    ensures
        r@ == sorted_samples(samples@),
{
    let ghost leq = ascending_order();
    let mut sorted: Vec<u64> = Vec::new();
    let mut i: usize = 0;
    proof {
        assert(samples@.take(0) =~= Seq::<u64>::empty());
    }
    while i < samples.len()
        invariant
            i <= samples@.len(),
            leq == ascending_order(),
            sorted@.len() == i,
            sorted_by(sorted@, leq),
            sorted@.to_multiset() == samples@.take(i as int).to_multiset(),
        decreases samples@.len() - i,
    {
        let x: u64 = samples[i];
        let mut k: usize = sorted.len();
        while k > 0 && sorted[k - 1] > x
            invariant
                k <= sorted@.len(),
                leq == ascending_order(),
                sorted_by(sorted@, leq),
                forall|j: int| k <= j < sorted@.len() ==> x < #[trigger] sorted@[j],
            decreases k,
        {
            k = k - 1;
        }
        let ghost before = sorted@;
        sorted.insert(k, x);
        proof {
            assert forall|a: int, b: int| 0 <= a < b < sorted@.len() implies #[trigger] leq(
                sorted@[a],
                sorted@[b],
            ) by {
                let a2 = if a < k {
                    a
                } else {
                    a - 1
                };
                let b2 = if b < k {
                    b
                } else {
                    b - 1
                };
                if a == k {
                    assert(sorted@[b] == before[b2]);
                } else if b == k {
                    assert(sorted@[a] == before[a]);
                    if a < k - 1 {
                        assert(leq(before[a], before[k - 1]));
                    }
                } else {
                    assert(sorted@[a] == before[a2]);
                    assert(sorted@[b] == before[b2]);
                    assert(leq(before[a2], before[b2]));
                }
            }
            vstd::seq_lib::to_multiset_insert(before, k as int, x);
            vstd::seq_lib::to_multiset_build(samples@.take(i as int), x);
            assert(samples@.take(i + 1) =~= samples@.take(i as int).push(x));
        }
        i = i + 1;
    }
    proof {
        assert(samples@.take(i as int) =~= samples@);
        lemma_ascending_total();
        samples@.lemma_sort_by_ensures(leq);
        vstd::seq_lib::lemma_sorted_unique(sorted@, sorted_samples(samples@), leq);
    }
    sorted
}

/// One integer EMA step: `alpha * sample + (1 - alpha) * prev`, rounded to nearest.
fn ema_step(prev: u64, sample: u64) -> (r: u64)
    ensures
        r == ema_stepped(prev, sample),
{
    let alpha: u128 = BLOCK_TIME_EMA_ALPHA_BPS as u128;
    let denom: u128 = BPS_DENOMINATOR as u128;
    let rest: u128 = denom - alpha;
    proof {
        assert(alpha * sample == 3_000 * sample && rest * prev == 7_000 * prev) by (nonlinear_arith)
            requires
                alpha == 3_000,
                rest == 7_000,
        ;
    }
    let weighted: u128 = alpha * sample as u128 + rest * prev as u128 + denom / 2;
    (weighted / denom) as u64
}

impl BlockTimeEstimator {
    /// The ring is in order.
    pub open spec fn wf(&self) -> bool {
        estimator_ok(self@)
    }

    /// Creates an estimator with no samples for `chain_id`.
    pub fn new(chain_id: ChainId) -> (r: Self)
        ensures
            r.wf(),
            r@ == (EstimatorState {
                chain_id,
                samples: Seq::empty(),
                write_ptr: 0,
                samples_written: 0,
                ema_ms: None,
                anchor: None,
                packets_issued: 0,
            }),
    {
        BlockTimeEstimator {
            chain_id,
            samples: Vec::new(),
            write_ptr: 0,
            samples_written: 0,
            ema_ms: None,
            anchor: None,
            packets_issued: 0,
        }
    }

    /// Identifier of the chain this estimator tracks.
    pub fn chain_id(&self) -> (r: &str)
        ensures
            r@ == self@.chain_id@,
    {
        self.chain_id.as_str()
    }

    /// Records a raw block-time sample in milliseconds.
    ///
    /// Returns `false` (and records nothing) for a zero sample.
    pub fn record_block_time_ms(&mut self, block_time_ms: u64) -> (r: bool)
        requires
            old(self).wf(),
        ensures
            final(self).wf(),
            r == (block_time_ms > 0),
            final(self)@ == sampled(old(self)@, block_time_ms),
    {
        if block_time_ms == 0 {
            return false;
        }
        proof {
            law_window_slides(self@, block_time_ms);
        }
        self.ema_ms = Some(
            match self.ema_ms {
                None => block_time_ms,
                Some(prev) => ema_step(prev, block_time_ms),
            },
        );
        if self.samples.len() < BLOCK_TIME_WINDOW_SAMPLES {
            self.samples.push(block_time_ms);
        } else {
            self.samples.set(self.write_ptr, block_time_ms);
        }
        self.write_ptr = (self.write_ptr + 1) % BLOCK_TIME_WINDOW_SAMPLES;
        self.samples_written = self.samples_written.saturating_add(1);
        true
    }

    /// Feeds a header observation from the header-sync pipeline, deriving a block-time sample from
    /// the gap to the previously anchored header. Returns `true` when a sample was recorded.
    ///
    /// A sample is taken only from consecutive heights with strictly increasing timestamps: gaps
    /// are not interpolated, stalled or backwards clocks and repeated heights are dropped.
    pub fn observe_header(&mut self, height: u64, timestamp_ms: u64) -> (r: bool)
        requires
            old(self).wf(),
        ensures
            final(self).wf(),
            r == yields_sample(old(self)@, height, timestamp_ms),
            final(self)@ == header_observed(old(self)@, height, timestamp_ms),
    {
        let anchor: Option<(u64, u64)> = self.anchor;
        let mut taken: bool = false;
        let mut advances: bool = true;
        if let Some((anchor_height, anchor_ts)) = anchor {
            if height > anchor_height && height - anchor_height == 1 && timestamp_ms > anchor_ts {
                taken = self.record_block_time_ms(timestamp_ms - anchor_ts);
            }
            advances = height > anchor_height;
        }
        if advances {
            self.anchor = Some((height, timestamp_ms));
        }
        taken
    }

    /// Number of samples currently in the window.
    pub fn sample_count(&self) -> (r: usize)
        ensures
            r == self@.samples.len(),
    {
        self.samples.len()
    }

    /// Returns `true` once the window is full.
    pub fn is_warm(&self) -> (r: bool)
        ensures
            r == (self@.samples.len() >= BLOCK_TIME_WINDOW_SAMPLES),
    {
        self.samples.len() >= BLOCK_TIME_WINDOW_SAMPLES
    }

    /// Arithmetic mean of the samples in the window, in milliseconds, or `None` when the window is
    /// empty.
    pub fn window_mean_block_time_ms(&self) -> (r: Option<u64>)
        requires
            self.wf(),
        ensures
            r == window_mean(self@),
            r matches Some(m) ==> m == mean_of(self@.samples) && m > 0,
    {
        if self.samples.len() == 0 {
            return None;
        }
        let ghost s = self.samples@;
        let mut total: u128 = 0;
        let mut i: usize = 0;
        while i < self.samples.len()
            invariant
                s == self.samples@,
                s.len() <= 100,
                i <= s.len(),
                total == sum_of(s.take(i as int)),
                total <= i * 0xffff_ffff_ffff_ffff,
            decreases s.len() - i,
        {
            proof {
                assert(s.take(i + 1).drop_last() =~= s.take(i as int));
                assert(s.take(i + 1).last() == s[i as int]);
            }
            total = total + self.samples[i] as u128;
            i = i + 1;
        }
        proof {
            assert(s.take(i as int) =~= s);
            lemma_mean_bounds(s);
        }
        Some((total / self.samples.len() as u128) as u64)
    }

    /// Block-time estimate used by the timeout formula, in milliseconds: the window mean when any
    /// sample exists, else the EMA, else the configured block time; at least one.
    pub fn mean_block_time_ms(&self, config: &ChainConfig) -> (r: u64)
        requires
            self.wf(),
        ensures
            r == block_time(self@, *config),
            r >= 1,
    {
        let estimate: u64 = match self.window_mean_block_time_ms() {
            Some(mean) => mean,
            None => match self.ema_ms {
                Some(ema) => ema,
                None => config.block_time_ms,
            },
        };
        if estimate >= 1 {
            estimate
        } else {
            1
        }
    }

    /// Nearest-rank percentile over the window, in milliseconds, or `None` when the window is
    /// empty.
    pub fn percentile_block_time_ms(&self, p: u64) -> (r: Option<u64>)
        requires
            self.wf(),
        ensures
            r == percentile(self@, p),
    {
        if self.samples.len() == 0 {
            return None;
        }
        let sorted: Vec<u64> = sorted_copy(&self.samples);
        proof {
            lemma_sorted_samples(self.samples@);
        }
        Some(sorted[nearest_rank_index(p, sorted.len())])
    }

    /// The p95 block time over the window, in milliseconds.
    pub fn p95_block_time_ms(&self) -> (r: Option<u64>)
        requires
            self.wf(),
        ensures
            r == percentile(self@, BLOCK_TIME_TAIL_PERCENTILE),
    {
        self.percentile_block_time_ms(BLOCK_TIME_TAIL_PERCENTILE)
    }

    /// Current EMA of the block time in milliseconds, or `None` before the first sample seeds it.
    pub fn ema_block_time_ms(&self) -> (r: Option<u64>)
        ensures
            r == self@.ema_ms,
    {
        self.ema_ms
    }

    /// Dispersion of the block-time distribution in basis points: `p95 / mean`.
    ///
    /// [`BPS_DENOMINATOR`] is a perfectly uniform chain, or one without samples.
    pub fn dispersion_bps(&self, config: &ChainConfig) -> (r: u64)
        requires
            self.wf(),
        ensures
            r == dispersion(self@, *config),
            percentile(self@, BLOCK_TIME_TAIL_PERCENTILE) matches Some(p95) ==> r == p95
                * BPS_DENOMINATOR / block_time(self@, *config) as int,
    {
        let p95: u64 = match self.p95_block_time_ms() {
            Some(p95) => p95,
            None => return BPS_DENOMINATOR,
        };
        let mean: u128 = self.mean_block_time_ms(config) as u128;
        proof {
            let s = self.samples@;
            lemma_mean_bounds(s);
            law_percentile_is_a_sample(s, BLOCK_TIME_TAIL_PERCENTILE);
            let i = choose|i: int| 0 <= i < s.len() && s[i] == p95;
            lemma_sample_within_mean(s, i);
            let m = mean as int;
            let n = s.len() as int;
            assert(p95 * 10_000 / m <= 1_000_000) by (nonlinear_arith)
                requires
                    0 <= p95 <= m * n,
                    m >= 1,
                    0 <= n <= 100,
            ;
        }
        ((p95 as u128 * BPS_DENOMINATOR as u128) / mean) as u64
    }

    /// Number of packet timeouts issued against this chain since the last cold-start reset.
    pub fn packets_issued(&self) -> (r: u32)
        ensures
            r == self@.packets_issued,
    {
        self.packets_issued
    }

    /// Records that a packet timeout was issued against this chain.
    pub fn note_packet_issued(&mut self)
        ensures
            final(self)@ == (EstimatorState {
                packets_issued: old(self)@.packets_issued.saturating_add(1),
                ..old(self)@
            }),
            old(self).wf() ==> final(self).wf(),
    {
        self.packets_issued = self.packets_issued.saturating_add(1);
    }

    /// Returns the estimator to cold start, so the next packets receive the safety margin again.
    pub fn reset_cold_start(&mut self)
        ensures
            final(self)@ == (EstimatorState { packets_issued: 0, ..old(self)@ }),
            old(self).wf() ==> final(self).wf(),
    {
        self.packets_issued = 0;
    }

    /// Recalibration action: clears the sample window and re-seeds it from the EMA.
    ///
    /// Returns the value the window was re-seeded with, if any.
    pub fn reseed_from_ema(&mut self) -> (r: Option<u64>)
        requires
            old(self).wf(),
        ensures
            final(self).wf(),
            r == old(self)@.ema_ms,
            final(self)@ == reseeded(old(self)@),
    {
        match self.ema_ms {
            None => None,
            Some(seed) => {
                self.samples.clear();
                self.samples.push(seed);
                self.write_ptr = 1;
                assert(self.samples@ =~= seq![seed]);
                Some(seed)
            },
        }
    }
}

/// The moving average goes three tenths of the way to a new sample, rounded to the nearest.
pub proof fn law_ema_goes_three_tenths_of_the_way(prev: u64, sample: u64)
    ensures
        10 * ema_stepped(prev, sample) <= 3 * sample + 7 * prev + 5 < 10 * ema_stepped(prev, sample)
            + 10,
{
    law_ema_stays_between(prev, sample);
}

/// A positive sample is recorded: it seeds the average or moves it, and goes to the end of a window
/// of at most 100; nothing else but the count of samples changes. A zero changes nothing.
pub proof fn law_sample_is_recorded(e: EstimatorState, sample: u64)
    requires
        estimator_ok(e),
        e.samples_written < u64::MAX,
    ensures
        sampled(e, 0) == e,
        sample > 0 ==> {
            let t = sampled(e, sample);
            &&& e.ema_ms is None ==> t.ema_ms == Some(sample)
            &&& e.ema_ms matches Some(v) ==> (t.ema_ms matches Some(w) && 10 * w <= 3 * sample + 7
                * v + 5 < 10 * w + 10)
            &&& window(t).last() == sample
            &&& window(e).len() < 100 ==> window(t) == window(e).push(sample)
            &&& window(e).len() == 100 ==> window(t) == window(e).push(sample).drop_first()
            &&& window(t).len() <= 100
            &&& t.samples_written == e.samples_written + 1
            &&& t.chain_id == e.chain_id
            &&& t.anchor == e.anchor
            &&& t.packets_issued == e.packets_issued
        },
{
    if sample > 0 {
        law_window_slides(e, sample);
        match e.ema_ms {
            Some(v) => {
                law_ema_goes_three_tenths_of_the_way(v, sample);
            },
            None => {},
        }
        if window(e).len() > 0 {
            assert(window(e).drop_first().push(sample) =~= window(e).push(sample).drop_first());
        }
    }
}

/// A header that follows the anchor directly and later gives its distance in time as a sample, and
/// no other header gives one; the anchor moves to every header above it and never back.
pub proof fn law_header_gives_the_distance_to_its_parent(
    e: EstimatorState,
    height: u64,
    timestamp_ms: u64,
)
    requires
        estimator_ok(e),
    ensures
        ({
            let t = header_observed(e, height, timestamp_ms);
            match e.anchor {
                None => t.anchor == Some((height, timestamp_ms)) && window(t) == window(e) && t.ema_ms
                    == e.ema_ms,
                Some((h, at)) => {
                    &&& height > h ==> t.anchor == Some((height, timestamp_ms))
                    &&& height <= h ==> t.anchor == Some((h, at))
                    &&& height == h + 1 && timestamp_ms > at ==> window(t).last() == timestamp_ms
                        - at && window(t).len() == if window(e).len() < 100 {
                        window(e).len() + 1
                    } else {
                        100
                    }
                    &&& !(height == h + 1 && timestamp_ms > at) ==> window(t) == window(e)
                        && t.ema_ms == e.ema_ms
                },
            }
        }),
        header_observed(e, height, timestamp_ms).packets_issued == e.packets_issued,
        header_observed(e, height, timestamp_ms).chain_id == e.chain_id,
{
    match e.anchor {
        Some((h, at)) => {
            if height == h + 1 && timestamp_ms > at {
                law_window_slides(e, (timestamp_ms - at) as u64);
            }
        },
        None => {},
    }
}

/// The sum takes in every sample once.
pub proof fn law_sum_takes_in_a_sample(s: Seq<u64>, x: u64)
    ensures
        sum_of(Seq::<u64>::empty()) == 0,
        sum_of(s.push(x)) == sum_of(s) + x,
{
    assert(s.push(x).drop_last() =~= s);
}

/// The mean times the number of samples is their sum, up to rounding down.
pub proof fn law_mean_is_the_sum_over_the_number(s: Seq<u64>)
    requires
        s.len() > 0,
    ensures
        mean_of(s) * s.len() <= sum_of(s) < (mean_of(s) + 1) * s.len(),
{
    let n = s.len() as int;
    let x = sum_of(s) as int;
    vstd::arithmetic::div_mod::lemma_fundamental_div_mod(x, n);
    vstd::arithmetic::div_mod::lemma_mod_bound(x, n);
    let q = x / n;
    assert(n * q == q * n) by (nonlinear_arith);
    assert((q + 1) * n == q * n + n) by (nonlinear_arith);
}

/// The percentile stands in the ascending list of the samples at the first place up to which at
/// least that share of them stands.
pub proof fn law_percentile_by_nearest_rank(s: Seq<u64>, p: u64)
    requires
        s.len() > 0,
        1 <= p <= 100,
    ensures
        ({
            let t = sorted_samples(s);
            let k = nearest_rank(p, s.len());
            &&& t.to_multiset() == s.to_multiset()
            &&& forall|i: int, j: int| 0 <= i < j < t.len() ==> #[trigger] t[i] <= #[trigger] t[j]
            &&& 0 <= k < s.len()
            &&& 100 * k < p * s.len() <= 100 * (k + 1)
            &&& percentile_of(s, p) == t[k]
        }),
{
    lemma_ascending_total();
    lemma_sorted_samples(s);
    s.lemma_sort_by_ensures(ascending_order());
    let t = sorted_samples(s);
    let leq = ascending_order();
    assert forall|i: int, j: int| 0 <= i < j < t.len() implies #[trigger] t[i] <= #[trigger] t[j] by {
        assert(leq(t[i], t[j]));
    }
    let n = s.len() as int;
    let x = p * n;
    assert(1 <= x <= 100 * n) by (nonlinear_arith)
        requires
            1 <= p <= 100,
            n >= 1,
            x == p * n,
    ;
}

/// The block time is the mean of the window, or the moving average without a sample, or the
/// configured one without either, and never less than a millisecond.
pub proof fn law_block_time_prefers_the_window(e: EstimatorState, c: ChainConfig)
    requires
        estimator_ok(e),
    ensures
        e.samples.len() > 0 ==> block_time(e, c) == mean_of(e.samples),
        e.samples.len() == 0 ==> (e.ema_ms matches Some(v) ==> block_time(e, c) == v),
        e.samples.len() == 0 && e.ema_ms is None && c.block_time_ms > 0 ==> block_time(e, c)
            == c.block_time_ms,
        block_time(e, c) >= 1,
{
    if e.samples.len() > 0 {
        lemma_mean_bounds(e.samples);
    }
}

/// The dispersion is the 95th percentile over the block time, in basis points, rounded down.
pub proof fn law_dispersion_is_tail_over_mean(e: EstimatorState, c: ChainConfig)
    requires
        estimator_ok(e),
        e.samples.len() > 0,
        percentile_of(e.samples, 95) * 10_000 <= u64::MAX,
    ensures
        dispersion(e, c) * block_time(e, c) <= percentile_of(e.samples, 95) * 10_000 < (dispersion(
            e,
            c,
        ) + 1) * block_time(e, c),
{
    law_block_time_prefers_the_window(e, c);
    let m = block_time(e, c) as int;
    let x = percentile_of(e.samples, 95) * 10_000;
    vstd::arithmetic::div_mod::lemma_fundamental_div_mod(x, m);
    vstd::arithmetic::div_mod::lemma_mod_bound(x, m);
    let q = x / m;
    assert(0 <= q <= x) by (nonlinear_arith)
        requires
            q == x / m,
            m >= 1,
            x >= 0,
    ;
    assert(m * q == q * m) by (nonlinear_arith);
    assert((q + 1) * m == q * m + m) by (nonlinear_arith);
}

/// Reseeding leaves the moving average as the only sample, and changes nothing else but where the
/// next one goes.
pub proof fn law_reseeding_keeps_the_average(e: EstimatorState)
    ensures
        e.ema_ms is None ==> reseeded(e) == e,
        e.ema_ms matches Some(v) ==> {
            let t = reseeded(e);
            &&& t.samples == seq![v]
            &&& t.ema_ms == Some(v)
            &&& t.anchor == e.anchor
            &&& t.packets_issued == e.packets_issued
            &&& t.chain_id == e.chain_id
            &&& t.samples_written == e.samples_written
        },
{
}

/// After reseeding, the average is the only sample, and the next sample goes behind it.
pub proof fn law_reseeded_window_goes_on_from_the_average(e: EstimatorState, sample: u64)
    requires
        e.ema_ms is Some,
        sample > 0,
    ensures
        ({
            let t = reseeded(e);
            let u = sampled(t, sample);
            &&& t.samples == seq![e.ema_ms->0]
            &&& t.write_ptr == 1
            &&& u.samples == seq![e.ema_ms->0, sample]
            &&& u.write_ptr == 2
        }),
{
    assert(sampled(reseeded(e), sample).samples =~= seq![e.ema_ms->0, sample]);
}

} // verus!
