//! In-flight IBC packet tracking, timeout misestimation detection, and estimator recalibration.
//!
//! A packet's timeout is a height, but the caller's intent is a duration. For each resolved packet
//! the time at which the height deadline resolved is compared with the time the caller meant; the
//! packet is misestimated when they differ by more than [`TIMEOUT_ACCURACY_TOLERANCE_BPS`] of the
//! requested window.
//!
//! The misestimation rate is taken over the last [`MISESTIMATION_WINDOW_PACKETS`] resolved packets
//! of a destination chain, acknowledged ones included and cold-start packets excluded. A full
//! window whose rate exceeds [`MAX_MISESTIMATION_RATE_BPS`] recalibrates the estimator: the sample
//! window is re-seeded from the EMA, the misestimation window is cleared, and cold start is
//! re-entered when the misses were predominantly early.

use vstd::prelude::*;

use crate::arith::least;
use crate::byte_order::{
    lemma_bytes_before_irreflexive, lemma_bytes_before_total, lemma_bytes_before_transitive,
    lemma_encoding_injective, slice_before, text_before, text_equal,
};
use crate::cross_chain::ibc::block_time_estimator::{
    mean_of, reseeded, sum_of, window_mean, EstimatorState,
};
use crate::cross_chain::ibc::packet_timeout::{
    after_timeout, compute_timeout, timeout_result, IbcTimeoutError, TimeoutEstimate,
    MAX_TIMEOUT_DELTA_MS,
};
use crate::cross_chain::light_client::{ChainState, ConnectedChain};
use crate::cross_chain::types::{ChainId, BPS_DENOMINATOR};
use crate::ordered_map::{
    ascending, has_key, kept, lemma_entry, lemma_filter_keeps_order, lemma_filtered_map,
    lemma_listing_whole, lemma_mapped_insert, listing, mapped, place_of, OrderedKey, OrderedMap,
};
use crate::seqs::{lemma_filter_source, lemma_filter_step};

verus! {

/// Number of resolved packets per destination chain over which the misestimation rate is
/// measured.
pub const MISESTIMATION_WINDOW_PACKETS: usize = 100;

/// Misestimation rate above which the estimator is recalibrated, in basis points.
pub const MAX_MISESTIMATION_RATE_BPS: u64 = 500;

/// Half-width of the accuracy band, as a fraction of the requested timeout window, in basis
/// points.
pub const TIMEOUT_ACCURACY_TOLERANCE_BPS: u64 = 5_000;

/// Stable identifier for an IBC channel.
pub type ChannelId = String;

/// Identifies one packet on one channel.
#[derive(Debug, Eq, Ord, PartialEq, PartialOrd)]
pub struct PacketId {
    /// Channel the packet was sent on.
    pub channel: ChannelId,
    /// Monotonic sequence number within the channel.
    pub sequence: u64,
}

impl Clone for PacketId {
    fn clone(&self) -> (r: Self)
        ensures
            r == *self,
    {
        PacketId { channel: self.channel.clone(), sequence: self.sequence }
    }
}

impl PacketId {
    /// Creates a packet identifier.
    pub fn new(channel: ChannelId, sequence: u64) -> (r: Self)
        ensures
            r == (PacketId { channel, sequence }),
    {
        PacketId { channel, sequence }
    }
}

impl OrderedKey for PacketId {
    type Model = (Seq<char>, u64);

    open spec fn model(&self) -> (Seq<char>, u64) {
        (self.channel@, self.sequence)
    }

    open spec fn before(a: (Seq<char>, u64), b: (Seq<char>, u64)) -> bool {
        text_before(a.0, b.0) || (a.0 == b.0 && a.1 < b.1)
    }

    proof fn before_irreflexive(a: (Seq<char>, u64)) {
        lemma_bytes_before_irreflexive(vstd::utf8::encode_utf8(a.0));
    }

    proof fn before_transitive(a: (Seq<char>, u64), b: (Seq<char>, u64), c: (Seq<char>, u64)) {
        if text_before(a.0, b.0) && text_before(b.0, c.0) {
            lemma_bytes_before_transitive(
                vstd::utf8::encode_utf8(a.0),
                vstd::utf8::encode_utf8(b.0),
                vstd::utf8::encode_utf8(c.0),
            );
        }
    }

    proof fn before_total(a: (Seq<char>, u64), b: (Seq<char>, u64)) {
        lemma_bytes_before_total(vstd::utf8::encode_utf8(a.0), vstd::utf8::encode_utf8(b.0));
        lemma_encoding_injective(a.0, b.0);
    }

    fn precedes(&self, other: &PacketId) -> (r: bool) {
        slice_before(self.channel.as_str().as_bytes(), other.channel.as_str().as_bytes()) || (
        text_equal(self.channel.as_str(), other.channel.as_str()) && self.sequence
            < other.sequence)
    }
}

/// Direction in which a packet's height deadline missed the caller's intent.
#[derive(Clone, Copy, Debug, Eq, PartialEq, Structural)]
pub enum TimeoutMiss {
    /// The destination reached the timeout height before the intended window had elapsed.
    TooEarly,
    /// The intended window elapsed while the destination was still at or below the timeout height.
    TooLate,
}

/// How an in-flight packet was resolved.
#[derive(Clone, Copy, Debug, Eq, PartialEq)]
pub enum PacketOutcome {
    /// Acknowledged by the destination before either deadline.
    Acknowledged,
    /// The destination chain reached the packet's timeout height.
    TimedOutOnHeight,
    /// The intended window elapsed past tolerance with the destination still at or below the
    /// timeout height.
    TimedOutBeyondWindow,
}

/// The result of resolving one in-flight packet.
#[derive(Clone, Debug, Eq, PartialEq)]
pub struct PacketResolution {
    /// The packet that resolved.
    pub packet_id: PacketId,
    /// How it resolved.
    pub outcome: PacketOutcome,
    /// The misestimation direction, when the deadline fell outside the accuracy band. `None`
    /// means the estimate was accurate.
    pub miss: Option<TimeoutMiss>,
    /// Destination height observed at resolution.
    pub observed_height: u64,
    /// Wall-clock time of the resolution, in milliseconds.
    pub observed_at_ms: u64,
    /// Wall-clock time the caller intended the packet to time out.
    pub intended_deadline_ms: u64,
    /// Whether this resolution tripped the recalibration trigger.
    pub recalibrated: bool,
}

/// Errors returned by relayer packet operations.
#[derive(Clone, Copy, Debug, Eq, PartialEq)]
pub enum IbcRelayerError {
    /// A packet with this identifier is already in flight.
    DuplicatePacket,
    /// No packet with this identifier is in flight.
    PacketNotFound,
    /// The timeout height could not be computed.
    Timeout(IbcTimeoutError),
}

impl From<IbcTimeoutError> for IbcRelayerError {
    fn from(err: IbcTimeoutError) -> (r: Self) {
        IbcRelayerError::Timeout(err)
    }
}

impl vstd::std_specs::convert::FromSpecImpl<IbcTimeoutError> for IbcRelayerError {
    open spec fn obeys_from_spec() -> bool {
        true
    }

    open spec fn from_spec(err: IbcTimeoutError) -> Self {
        IbcRelayerError::Timeout(err)
    }
}

/// Observability events emitted by the relayer.
#[derive(Clone, Debug, Eq, PartialEq)]
pub enum IbcRelayerEvent {
    /// A packet's height deadline missed the caller's intended window.
    PacketTimeoutMisestimation {
        /// The packet that was misestimated.
        packet_id: PacketId,
        /// Destination chain the timeout was denominated in.
        dest_chain: ChainId,
        /// Which way the deadline missed.
        direction: TimeoutMiss,
        /// Height the packet was estimated to time out at.
        timeout_height: u64,
        /// Destination height the estimate was measured from.
        reference_height: u64,
        /// Destination height actually observed at resolution.
        observed_height: u64,
        /// When the packet was sent, in milliseconds.
        sent_at_ms: u64,
        /// The caller's requested timeout window, in milliseconds.
        timeout_delta_ms: u64,
        /// When the caller intended the packet to time out.
        intended_deadline_ms: u64,
        /// When the height deadline actually resolved.
        observed_at_ms: u64,
        /// Block-time estimate used as the divisor, in milliseconds.
        mean_block_time_ms: u64,
        /// Tail block time at send time, in milliseconds.
        p95_block_time_ms: Option<u64>,
        /// Block-time dispersion (`p95 / mean`) at send time, in basis points.
        dispersion_bps: u64,
        /// Whether the cold-start margin had been applied to this packet.
        cold_start: bool,
    },
    /// The misestimation rate for a chain crossed the trigger and its estimator was recalibrated.
    EstimatorRecalibrated {
        /// Chain whose estimator was recalibrated.
        dest_chain: ChainId,
        /// Measured rate that tripped the trigger, in basis points.
        misestimation_rate_bps: u64,
        /// Early misses in the window that tripped it.
        early_count: u32,
        /// Late misses in the window that tripped it.
        late_count: u32,
        /// Block time the sample window was re-seeded to, in milliseconds.
        reseeded_block_time_ms: Option<u64>,
        /// Whether the cold-start margin was re-armed (early misses in strict majority).
        cold_start_reentered: bool,
    },
}

/// A packet awaiting acknowledgement or timeout.
#[derive(Clone, Debug, Eq, PartialEq)]
pub struct InFlightPacket {
    /// The packet's identifier.
    pub id: PacketId,
    /// Destination chain the timeout is denominated in.
    pub dest_chain: ChainId,
    /// When the packet was sent, in milliseconds.
    pub sent_at_ms: u64,
    /// The caller's requested timeout window, in milliseconds.
    pub timeout_delta_ms: u64,
    /// The timeout height and the estimator state that produced it.
    pub estimate: TimeoutEstimate,
}

/// When the caller meant the packet to time out.
pub open spec fn intended_deadline(p: InFlightPacket) -> u64 {
    p.sent_at_ms.saturating_add(p.timeout_delta_ms)
}

/// Half of the requested window.
pub open spec fn tolerance(p: InFlightPacket) -> u64 {
    (p.timeout_delta_ms * TIMEOUT_ACCURACY_TOLERANCE_BPS / BPS_DENOMINATOR as int) as u64
}

/// The start of the accuracy band.
pub open spec fn earliest_acceptable(p: InFlightPacket) -> u64 {
    intended_deadline(p).saturating_sub(tolerance(p))
}

/// The end of the accuracy band.
pub open spec fn latest_acceptable(p: InFlightPacket) -> u64 {
    intended_deadline(p).saturating_add(tolerance(p))
}

/// The tolerance can be computed.
pub open spec fn tolerance_fits(p: InFlightPacket) -> bool {
    p.timeout_delta_ms * TIMEOUT_ACCURACY_TOLERANCE_BPS <= u64::MAX
}

impl InFlightPacket {
    /// Wall-clock time the caller intended the packet to time out.
    pub fn intended_deadline_ms(&self) -> (r: u64)
        ensures
            r == intended_deadline(*self),
    {
        self.sent_at_ms.saturating_add(self.timeout_delta_ms)
    }

    /// Half-width of the accuracy band for this packet, in milliseconds.
    pub fn tolerance_ms(&self) -> (r: u64)
        requires
            tolerance_fits(*self),
        ensures
            r == tolerance(*self),
    {
        self.timeout_delta_ms * TIMEOUT_ACCURACY_TOLERANCE_BPS / BPS_DENOMINATOR
    }

    /// Earliest wall-clock time at which the height deadline may resolve without counting as
    /// [`TimeoutMiss::TooEarly`].
    pub fn earliest_acceptable_ms(&self) -> (r: u64)
        requires
            tolerance_fits(*self),
        ensures
            r == earliest_acceptable(*self),
    {
        self.intended_deadline_ms().saturating_sub(self.tolerance_ms())
    }

    /// Latest wall-clock time at which the height deadline may resolve without counting as
    /// [`TimeoutMiss::TooLate`].
    pub fn latest_acceptable_ms(&self) -> (r: u64)
        requires
            tolerance_fits(*self),
        ensures
            r == latest_acceptable(*self),
    {
        self.intended_deadline_ms().saturating_add(self.tolerance_ms())
    }
}

/// The latest resolutions for one destination chain, oldest first.
#[derive(Clone, Debug, Eq, PartialEq)]
struct MisestimationWindow {
    outcomes: Vec<Option<TimeoutMiss>>,
}

/// The window after one more resolution.
pub open spec fn window_recorded(w: Seq<Option<TimeoutMiss>>, miss: Option<TimeoutMiss>) -> Seq<
    Option<TimeoutMiss>,
> {
    if w.len() < MISESTIMATION_WINDOW_PACKETS {
        w.push(miss)
    } else {
        w.drop_first().push(miss)
    }
}

/// How many resolutions of a window missed in a direction.
pub open spec fn miss_count(w: Seq<Option<TimeoutMiss>>, direction: TimeoutMiss) -> nat
    decreases w.len(),
{
    if w.len() == 0 {
        0
    } else {
        miss_count(w.drop_last(), direction) + (if w.last() == Some(direction) {
            1nat
        } else {
            0nat
        })
    }
}

/// The misestimation rate of a window, in basis points.
pub open spec fn miss_rate(w: Seq<Option<TimeoutMiss>>) -> int {
    (miss_count(w, TimeoutMiss::TooEarly) + miss_count(w, TimeoutMiss::TooLate)) * BPS_DENOMINATOR
        / w.len() as int
}

/// The window is full and its rate exceeds the maximum.
pub open spec fn trips(w: Seq<Option<TimeoutMiss>>) -> bool {
    w.len() >= MISESTIMATION_WINDOW_PACKETS && miss_rate(w) > MAX_MISESTIMATION_RATE_BPS
}

proof fn lemma_miss_counts_bounded(w: Seq<Option<TimeoutMiss>>)
    ensures
        miss_count(w, TimeoutMiss::TooEarly) + miss_count(w, TimeoutMiss::TooLate) <= w.len(),
    decreases w.len(),
{
    if w.len() > 0 {
        lemma_miss_counts_bounded(w.drop_last());
    }
}

/// A full window trips from the sixth miss on, and a window that is not full never does.
pub proof fn law_trigger_boundary(w: Seq<Option<TimeoutMiss>>)
    requires
        w.len() <= MISESTIMATION_WINDOW_PACKETS,
    ensures
        trips(w) <==> w.len() == MISESTIMATION_WINDOW_PACKETS && miss_count(
            w,
            TimeoutMiss::TooEarly,
        ) + miss_count(w, TimeoutMiss::TooLate) >= 6,
{
}

impl MisestimationWindow {
    fn record(&mut self, miss: Option<TimeoutMiss>)
        requires
            old(self).outcomes@.len() <= MISESTIMATION_WINDOW_PACKETS,
        ensures
            final(self).outcomes@ == window_recorded(old(self).outcomes@, miss),
            final(self).outcomes@.len() <= MISESTIMATION_WINDOW_PACKETS,
    {
        let ghost w = self.outcomes@;
        if self.outcomes.len() >= MISESTIMATION_WINDOW_PACKETS {
            self.outcomes.remove(0);
            assert(self.outcomes@ =~= w.drop_first());
        }
        self.outcomes.push(miss);
    }

    fn is_full(&self) -> (r: bool)
        ensures
            r == (self.outcomes@.len() >= MISESTIMATION_WINDOW_PACKETS),
    {
        self.outcomes.len() >= MISESTIMATION_WINDOW_PACKETS
    }

    fn counts(&self) -> (r: (u32, u32))
        requires
            self.outcomes@.len() <= MISESTIMATION_WINDOW_PACKETS,
        ensures
            r.0 == miss_count(self.outcomes@, TimeoutMiss::TooEarly),
            r.1 == miss_count(self.outcomes@, TimeoutMiss::TooLate),
            r.0 + r.1 <= self.outcomes@.len(),
    {
        let ghost w = self.outcomes@;
        let mut early: u32 = 0;
        let mut late: u32 = 0;
        let mut i: usize = 0;
        while i < self.outcomes.len()
            invariant
                w == self.outcomes@,
                w.len() <= MISESTIMATION_WINDOW_PACKETS,
                i <= w.len(),
                early <= i,
                late <= i,
                early == miss_count(w.take(i as int), TimeoutMiss::TooEarly),
                late == miss_count(w.take(i as int), TimeoutMiss::TooLate),
            decreases w.len() - i,
        {
            proof {
                assert(w.take(i + 1).drop_last() =~= w.take(i as int));
                assert(w.take(i + 1).last() == w[i as int]);
            }
            match self.outcomes[i] {
                Some(TimeoutMiss::TooEarly) => {
                    early = early + 1;
                },
                Some(TimeoutMiss::TooLate) => {
                    late = late + 1;
                },
                None => {},
            }
            i = i + 1;
        }
        proof {
            assert(w.take(i as int) =~= w);
            lemma_miss_counts_bounded(w);
        }
        (early, late)
    }

    /// Misestimation rate over the window, in basis points, or `None` when the window is empty.
    fn rate_bps(&self) -> (r: Option<u64>)
        requires
            self.outcomes@.len() <= MISESTIMATION_WINDOW_PACKETS,
        ensures
            r is Some <==> self.outcomes@.len() > 0,
            r matches Some(rate) ==> rate == miss_rate(self.outcomes@),
    {
        if self.outcomes.len() == 0 {
            return None;
        }
        let (early, late) = self.counts();
        let missed: u64 = early as u64 + late as u64;
        Some(missed * BPS_DENOMINATOR / self.outcomes.len() as u64)
    }

    fn clear(&mut self)
        ensures
            final(self).outcomes@ == Seq::<Option<TimeoutMiss>>::empty(),
    {
        self.outcomes.clear();
    }
}

/// Tracks in-flight packets, classifies their timeouts, and recalibrates per-chain block-time
/// estimators when they drift.
///
/// Block-time estimators live on [`ConnectedChain`] and are borrowed here at call time.
#[derive(Clone, Debug)]
pub struct PacketRelayer {
    in_flight: OrderedMap<PacketId, InFlightPacket>,
    windows: OrderedMap<ChainId, MisestimationWindow>,
    events: Vec<IbcRelayerEvent>,
}

/// What a relayer knows.
pub struct RelayerState {
    /// The packets in flight, by channel and sequence number.
    pub in_flight: Map<(Seq<char>, u64), InFlightPacket>,
    /// The latest resolutions by destination chain, oldest first.
    pub windows: Map<Seq<char>, Seq<Option<TimeoutMiss>>>,
    /// Events since they were last drained.
    pub events: Seq<IbcRelayerEvent>,
}

/// The relayer after a packet has been sent.
pub open spec fn packet_sent(
    s: RelayerState,
    id: PacketId,
    dest_chain: ChainId,
    sent_at_ms: u64,
    timeout_delta_ms: u64,
    estimate: TimeoutEstimate,
) -> RelayerState {
    RelayerState {
        in_flight: s.in_flight.insert(
            id.model(),
            InFlightPacket { id, dest_chain, sent_at_ms, timeout_delta_ms, estimate },
        ),
        ..s
    }
}

/// The latest resolutions of a chain.
pub open spec fn window_of(s: RelayerState, chain_id: Seq<char>) -> Seq<Option<TimeoutMiss>> {
    if s.windows.dom().contains(chain_id) {
        s.windows[chain_id]
    } else {
        Seq::empty()
    }
}

/// How a packet that is due times out, and in which direction it missed, if it did.
pub open spec fn timeout_outcome(p: InFlightPacket, observed_height: u64, now: u64) -> (
    PacketOutcome,
    Option<TimeoutMiss>,
) {
    if observed_height >= p.estimate.timeout_height {
        (
            PacketOutcome::TimedOutOnHeight,
            if now < earliest_acceptable(p) {
                Some(TimeoutMiss::TooEarly)
            } else if now > latest_acceptable(p) {
                Some(TimeoutMiss::TooLate)
            } else {
                None
            },
        )
    } else {
        (PacketOutcome::TimedOutBeyondWindow, Some(TimeoutMiss::TooLate))
    }
}

/// The packet goes to the chain, and has reached its timeout height or outlived its window.
pub open spec fn is_due(p: InFlightPacket, chain_id: Seq<char>, observed_height: u64, now: u64) -> bool {
    p.dest_chain@ == chain_id && (observed_height >= p.estimate.timeout_height || now
        > latest_acceptable(p))
}

/// The event of a misestimated packet.
pub open spec fn miss_event(
    p: InFlightPacket,
    chain_id: ChainId,
    direction: TimeoutMiss,
    observed_height: u64,
    now: u64,
) -> IbcRelayerEvent {
    IbcRelayerEvent::PacketTimeoutMisestimation {
        packet_id: p.id,
        dest_chain: chain_id,
        direction,
        timeout_height: p.estimate.timeout_height,
        reference_height: p.estimate.reference_height,
        observed_height,
        sent_at_ms: p.sent_at_ms,
        timeout_delta_ms: p.timeout_delta_ms,
        intended_deadline_ms: intended_deadline(p),
        observed_at_ms: now,
        mean_block_time_ms: p.estimate.mean_block_time_ms,
        p95_block_time_ms: p.estimate.p95_block_time_ms,
        dispersion_bps: p.estimate.dispersion_bps,
        cold_start: p.estimate.cold_start,
    }
}

/// The event of a recalibration.
pub open spec fn recalibration_event(
    w: Seq<Option<TimeoutMiss>>,
    chain_id: ChainId,
    e: EstimatorState,
) -> IbcRelayerEvent {
    let early = miss_count(w, TimeoutMiss::TooEarly);
    let late = miss_count(w, TimeoutMiss::TooLate);
    IbcRelayerEvent::EstimatorRecalibrated {
        dest_chain: chain_id,
        misestimation_rate_bps: miss_rate(w) as u64,
        early_count: early as u32,
        late_count: late as u32,
        reseeded_block_time_ms: e.ema_ms,
        cold_start_reentered: early > late,
    }
}

/// The estimator after recalibration on a window.
pub open spec fn recalibrated(w: Seq<Option<TimeoutMiss>>, e: EstimatorState) -> EstimatorState {
    let seeded = reseeded(e);
    if miss_count(w, TimeoutMiss::TooEarly) > miss_count(w, TimeoutMiss::TooLate) {
        EstimatorState { packets_issued: 0, ..seeded }
    } else {
        seeded
    }
}

/// The window of a chain with the resolution of a packet in it.
pub open spec fn next_window(s: RelayerState, chain_id: ChainId, miss: Option<TimeoutMiss>) -> Seq<
    Option<TimeoutMiss>,
> {
    window_recorded(window_of(s, chain_id@), miss)
}

/// The resolution of a packet trips the recalibration trigger.
pub open spec fn resolution_trips(
    s: RelayerState,
    chain_id: ChainId,
    p: InFlightPacket,
    miss: Option<TimeoutMiss>,
) -> bool {
    !p.estimate.cold_start && trips(next_window(s, chain_id, miss))
}

/// The relayer after a packet has been resolved.
pub open spec fn resolved(
    s: RelayerState,
    e: EstimatorState,
    chain_id: ChainId,
    p: InFlightPacket,
    miss: Option<TimeoutMiss>,
    observed_height: u64,
    now: u64,
) -> RelayerState {
    let events = match miss {
        Some(direction) => s.events.push(miss_event(p, chain_id, direction, observed_height, now)),
        None => s.events,
    };
    let w = next_window(s, chain_id, miss);
    if p.estimate.cold_start {
        RelayerState { events, ..s }
    } else if trips(w) {
        RelayerState {
            windows: s.windows.insert(chain_id@, Seq::empty()),
            events: events.push(recalibration_event(w, chain_id, e)),
            ..s
        }
    } else {
        RelayerState { windows: s.windows.insert(chain_id@, w), events, ..s }
    }
}

/// The estimator after a packet has been resolved.
pub open spec fn estimator_after(
    s: RelayerState,
    e: EstimatorState,
    chain_id: ChainId,
    p: InFlightPacket,
    miss: Option<TimeoutMiss>,
) -> EstimatorState {
    if resolution_trips(s, chain_id, p, miss) {
        recalibrated(next_window(s, chain_id, miss), e)
    } else {
        e
    }
}

/// What the resolution of a packet reports.
pub open spec fn resolution(
    s: RelayerState,
    chain_id: ChainId,
    p: InFlightPacket,
    outcome: PacketOutcome,
    miss: Option<TimeoutMiss>,
    observed_height: u64,
    now: u64,
) -> PacketResolution {
    PacketResolution {
        packet_id: p.id,
        outcome,
        miss,
        observed_height,
        observed_at_ms: now,
        intended_deadline_ms: intended_deadline(p),
        recalibrated: resolution_trips(s, chain_id, p, miss),
    }
}

/// The relayer, the estimator and the reports after some packets have timed out one by one.
pub struct TimedOut {
    pub relayer: RelayerState,
    pub estimator: EstimatorState,
    pub reports: Seq<PacketResolution>,
}

/// What comes of timing out some packets, one by one.
pub open spec fn timed_out(
    s: RelayerState,
    e: EstimatorState,
    chain_id: ChainId,
    due: Seq<((Seq<char>, u64), InFlightPacket)>,
    observed_height: u64,
    now: u64,
) -> TimedOut
    decreases due.len(),
{
    if due.len() == 0 {
        TimedOut { relayer: s, estimator: e, reports: Seq::empty() }
    } else {
        let t = timed_out(s, e, chain_id, due.drop_last(), observed_height, now);
        let p = due.last().1;
        let (outcome, miss) = timeout_outcome(p, observed_height, now);
        TimedOut {
            relayer: resolved(t.relayer, t.estimator, chain_id, p, miss, observed_height, now),
            estimator: estimator_after(t.relayer, t.estimator, chain_id, p, miss),
            reports: t.reports.push(
                resolution(t.relayer, chain_id, p, outcome, miss, observed_height, now),
            ),
        }
    }
}

/// The packets that are due, in identifier order.
pub open spec fn due_packets(
    s: RelayerState,
    chain_id: Seq<char>,
    observed_height: u64,
    now: u64,
) -> Seq<((Seq<char>, u64), InFlightPacket)> {
    listing::<PacketId, InFlightPacket>(s.in_flight).filter(
        |e: ((Seq<char>, u64), InFlightPacket)| is_due(e.1, chain_id, observed_height, now),
    )
}

/// The packets that are found due are exactly those in flight that are due, each once, in
/// identifier order.
pub proof fn law_due_packets_are_those_due(
    s: RelayerState,
    chain_id: Seq<char>,
    observed_height: u64,
    now: u64,
)
    requires
        s.in_flight.dom().finite(),
    ensures
        ({
            let due = due_packets(s, chain_id, observed_height, now);
            &&& forall|k: (Seq<char>, u64), p: InFlightPacket| #[trigger]
                due.contains((k, p)) <==> s.in_flight.dom().contains(k) && s.in_flight[k] == p
                    && is_due(p, chain_id, observed_height, now)
            &&& ascending::<PacketId, InFlightPacket>(due)
        }),
{
    lemma_listing_whole::<PacketId, InFlightPacket>(s.in_flight);
    let all = listing::<PacketId, InFlightPacket>(s.in_flight);
    let f = |e: ((Seq<char>, u64), InFlightPacket)| is_due(e.1, chain_id, observed_height, now);
    let due = due_packets(s, chain_id, observed_height, now);
    lemma_filter_keeps_order::<PacketId, InFlightPacket>(all, f);
    assert forall|k: (Seq<char>, u64), p: InFlightPacket| #[trigger]
        due.contains((k, p)) <==> s.in_flight.dom().contains(k) && s.in_flight[k] == p && is_due(
            p,
            chain_id,
            observed_height,
            now,
        ) by {
        if due.contains((k, p)) {
            let j = choose|j: int| 0 <= j < due.len() && due[j] == (k, p);
            lemma_filter_source(all, f, j);
            let i = choose|i: int| 0 <= i < all.len() && all[i] == (k, p);
            lemma_entry::<PacketId, InFlightPacket>(all, i);
        }
        if s.in_flight.dom().contains(k) && s.in_flight[k] == p && is_due(
            p,
            chain_id,
            observed_height,
            now,
        ) {
            assert(has_key(all, k));
            let i = place_of(all, k);
            assert(all[i] == (k, p));
            all.lemma_filter_contains(f, i);
        }
    }
}

/// A packet that reaches its timeout height counts as accurate exactly where that happens within
/// the accuracy band, both of its ends included.
pub proof fn law_accuracy_band_is_inclusive(p: InFlightPacket, observed_height: u64, now: u64)
    requires
        observed_height >= p.estimate.timeout_height,
    ensures
        timeout_outcome(p, observed_height, now).1 is None <==> earliest_acceptable(p) <= now
            <= latest_acceptable(p),
{
}

/// The resolutions of cold-start packets neither enter the window nor recalibrate the estimator.
pub proof fn law_cold_start_packets_do_not_vote(
    s: RelayerState,
    e: EstimatorState,
    chain_id: ChainId,
    p: InFlightPacket,
    miss: Option<TimeoutMiss>,
    observed_height: u64,
    now: u64,
)
    requires
        p.estimate.cold_start,
    ensures
        resolved(s, e, chain_id, p, miss, observed_height, now).windows == s.windows,
        estimator_after(s, e, chain_id, p, miss) == e,
{
}

/// A recalibration clears the window, so the same evidence cannot trip it again.
pub proof fn law_recalibration_clears_the_window(
    s: RelayerState,
    e: EstimatorState,
    chain_id: ChainId,
    p: InFlightPacket,
    miss: Option<TimeoutMiss>,
    observed_height: u64,
    now: u64,
)
    requires
        resolution_trips(s, chain_id, p, miss),
    ensures
        window_of(resolved(s, e, chain_id, p, miss, observed_height, now), chain_id@).len() == 0,
{
}

proof fn lemma_miss_count_without_first(w: Seq<Option<TimeoutMiss>>, direction: TimeoutMiss)
    requires
        w.len() > 0,
    ensures
        miss_count(w.drop_first(), direction) <= miss_count(w, direction),
    decreases w.len(),
{
    if w.len() > 1 {
        let rest = w.drop_first();
        assert(rest.drop_last() =~= w.drop_last().drop_first());
        assert(rest.last() == w.last());
        lemma_miss_count_without_first(w.drop_last(), direction);
    }
}

/// A resolution without a miss, such as an acknowledgement, counts towards the number of resolved
/// packets and never towards the misses.
pub proof fn law_accurate_resolution_is_no_miss(
    w: Seq<Option<TimeoutMiss>>,
    direction: TimeoutMiss,
)
    requires
        w.len() <= MISESTIMATION_WINDOW_PACKETS,
    ensures
        miss_count(window_recorded(w, None), direction) <= miss_count(w, direction),
        window_recorded(w, None).len() == least(
            w.len() as int + 1,
            MISESTIMATION_WINDOW_PACKETS as int,
        ),
{
    let base = if w.len() < MISESTIMATION_WINDOW_PACKETS {
        w
    } else {
        w.drop_first()
    };
    assert(base.push(None).drop_last() =~= base);
    if w.len() > 0 {
        lemma_miss_count_without_first(w, direction);
    }
}

/// A recalibrated estimator starts again from its moving average, and the cold-start margin is
/// armed again only where early misses are in the majority.
pub proof fn law_recalibration_follows_the_average(
    w: Seq<Option<TimeoutMiss>>,
    e: EstimatorState,
)
    ensures
        e.ema_ms is Some ==> window_mean(recalibrated(w, e)) == e.ema_ms,
        recalibrated(w, e).packets_issued == if miss_count(w, TimeoutMiss::TooEarly) > miss_count(
            w,
            TimeoutMiss::TooLate,
        ) {
            0
        } else {
            e.packets_issued
        },
{
    if e.ema_ms is Some {
        let s = seq![e.ema_ms->0];
        assert(s.drop_last() =~= Seq::<u64>::empty());
        assert(sum_of(s.drop_last()) == 0);
        assert(sum_of(s) == e.ema_ms->0);
        assert(mean_of(s) == e.ema_ms->0) by {
            vstd::arithmetic::div_mod::lemma_div_basics(sum_of(s) as int);
        }
        assert(recalibrated(w, e).samples == s);
    }
}

/// Resolving packets of one chain leaves the windows of all others alone.
pub proof fn law_windows_are_per_chain(
    s: RelayerState,
    e: EstimatorState,
    chain_id: ChainId,
    p: InFlightPacket,
    miss: Option<TimeoutMiss>,
    observed_height: u64,
    now: u64,
    other: Seq<char>,
)
    requires
        other != chain_id@,
    ensures
        window_of(resolved(s, e, chain_id, p, miss, observed_height, now), other) == window_of(
            s,
            other,
        ),
{
}

spec fn outcomes_of() -> spec_fn(MisestimationWindow) -> Seq<Option<TimeoutMiss>> {
    |w: MisestimationWindow| w.outcomes@
}

impl View for PacketRelayer {
    type V = RelayerState;

    closed spec fn view(&self) -> RelayerState {
        RelayerState {
            in_flight: self.in_flight@,
            windows: mapped(self.windows@, outcomes_of()),
            events: self.events@,
        }
    }
}

impl PacketRelayer {
    /// Every packet stands under its own identifier and asked for a window within bounds; no
    /// misestimation window holds more than it may.
    pub closed spec fn wf(&self) -> bool {
        &&& self.in_flight.wf()
        &&& self.windows.wf()
        &&& forall|k: (Seq<char>, u64)| #[trigger]
            self.in_flight@.dom().contains(k) ==> self.in_flight@[k].id.model() == k
                && self.in_flight@[k].timeout_delta_ms <= MAX_TIMEOUT_DELTA_MS
        &&& forall|c: Seq<char>| #[trigger]
            self.windows@.dom().contains(c) ==> self.windows@[c].outcomes@.len()
                <= MISESTIMATION_WINDOW_PACKETS
    }

    /// There are finitely many packets in flight, each under its own identifier, and finitely many
    /// misestimation windows, none of which holds more than it may.
    pub proof fn law_in_order(&self, k: (Seq<char>, u64), chain_id: Seq<char>)
        requires
            self.wf(),
        ensures
            self@.in_flight.dom().finite(),
            self@.windows.dom().finite(),
            self@.in_flight.dom().contains(k) ==> self@.in_flight[k].id.model() == k
                && tolerance_fits(self@.in_flight[k]),
            window_of(self@, chain_id).len() <= MISESTIMATION_WINDOW_PACKETS,
    {
        self.in_flight.lemma_finite();
        self.windows.lemma_finite();
        assert(self@.windows.dom() =~= self.windows@.dom());
    }

    /// Creates an empty relayer.
    pub fn new() -> (r: Self)
        ensures
            r.wf(),
            r@ == (RelayerState {
                in_flight: Map::empty(),
                windows: Map::empty(),
                events: Seq::empty(),
            }),
    {
        let r = PacketRelayer {
            in_flight: OrderedMap::new(),
            windows: OrderedMap::new(),
            events: Vec::new(),
        };
        assert(r@.windows =~= Map::empty());
        r
    }

    /// Computes a packet's timeout height against `chain`'s block-time estimator and records it as
    /// in flight.
    ///
    /// `reference_height` is the latest known height of `chain`, the destination chain.
    pub fn send_packet(
        &mut self,
        chain: &mut ConnectedChain,
        id: PacketId,
        reference_height: u64,
        sent_at_ms: u64,
        timeout_delta_ms: u64,
    ) -> (r: Result<TimeoutEstimate, IbcRelayerError>)
        requires
            old(self).wf(),
            old(chain).wf(),
        ensures
            final(self).wf(),
            final(chain).wf(),
            ({
                let computed = timeout_result(
                    old(chain)@.block_time,
                    old(chain)@.config,
                    reference_height,
                    timeout_delta_ms,
                );
                if old(self)@.in_flight.dom().contains(id.model()) {
                    &&& r == Err::<TimeoutEstimate, _>(IbcRelayerError::DuplicatePacket)
                    &&& final(self)@ == old(self)@
                    &&& final(chain)@ == old(chain)@
                } else {
                    &&& r == match computed {
                        Ok(estimate) => Ok(estimate),
                        Err(e) => Err(IbcRelayerError::Timeout(e)),
                    }
                    &&& final(chain)@ == (ChainState {
                        block_time: after_timeout(old(chain)@.block_time, computed),
                        ..old(chain)@
                    })
                    &&& final(self)@ == match computed {
                        Ok(estimate) => packet_sent(
                            old(self)@,
                            id,
                            old(chain)@.config.chain_id,
                            sent_at_ms,
                            timeout_delta_ms,
                            estimate,
                        ),
                        Err(_) => old(self)@,
                    }
                }
            }),
    {
        if self.in_flight.contains_key(&id) {
            return Err(IbcRelayerError::DuplicatePacket);
        }
        let computed: Result<TimeoutEstimate, IbcTimeoutError> = compute_timeout(
            &mut chain.block_time,
            &chain.config,
            reference_height,
            timeout_delta_ms,
        );
        match computed {
            Ok(estimate) => {
                let key: PacketId = id.clone();
                self.in_flight.insert(
                    key,
                    InFlightPacket {
                        id,
                        dest_chain: chain.config.chain_id.clone(),
                        sent_at_ms,
                        timeout_delta_ms,
                        estimate,
                    },
                );
                Ok(estimate)
            },
            Err(e) => Err(IbcRelayerError::from(e)),
        }
    }

    /// Records that a packet was acknowledged by the destination before either deadline.
    ///
    /// Acknowledgements count toward the misestimation denominator but never as a miss.
    pub fn acknowledge_packet(
        &mut self,
        chain: &mut ConnectedChain,
        id: &PacketId,
        observed_height: u64,
        now_ms: u64,
    ) -> (r: Result<PacketResolution, IbcRelayerError>)
        requires
            old(self).wf(),
            old(chain).wf(),
        ensures
            final(self).wf(),
            final(chain).wf(),
            !old(self)@.in_flight.dom().contains(id.model()) ==> {
                &&& r == Err::<PacketResolution, _>(IbcRelayerError::PacketNotFound)
                &&& final(self)@ == old(self)@
                &&& final(chain)@ == old(chain)@
            },
            old(self)@.in_flight.dom().contains(id.model()) ==> ({
                let p = old(self)@.in_flight[id.model()];
                let s = RelayerState {
                    in_flight: old(self)@.in_flight.remove(id.model()),
                    ..old(self)@
                };
                let chain_id = old(chain)@.config.chain_id;
                let e = old(chain)@.block_time;
                &&& r == Ok::<_, IbcRelayerError>(
                    resolution(
                        s,
                        chain_id,
                        p,
                        PacketOutcome::Acknowledged,
                        None,
                        observed_height,
                        now_ms,
                    ),
                )
                &&& final(self)@ == resolved(s, e, chain_id, p, None, observed_height, now_ms)
                &&& final(chain)@ == (ChainState {
                    block_time: estimator_after(s, e, chain_id, p, None),
                    ..old(chain)@
                })
            }),
    {
        match self.in_flight.remove(id) {
            None => {
                assert(self@.in_flight =~= old(self)@.in_flight);
                Err(IbcRelayerError::PacketNotFound)
            },
            Some(packet) => Ok(
                self.resolve(
                    chain,
                    packet,
                    PacketOutcome::Acknowledged,
                    None,
                    observed_height,
                    now_ms,
                ),
            ),
        }
    }

    /// Resolves every in-flight packet for `chain` that either has reached its timeout height or
    /// has outlived its intended window. Returns the resolutions in packet-identifier order.
    pub fn observe_destination_height(
        &mut self,
        chain: &mut ConnectedChain,
        observed_height: u64,
        now_ms: u64,
    ) -> (r: Vec<PacketResolution>)
        requires
            old(self).wf(),
            old(chain).wf(),
        ensures
            final(self).wf(),
            final(chain).wf(),
            ({
                let chain_id = old(chain)@.config.chain_id;
                let t = timed_out(
                    old(self)@,
                    old(chain)@.block_time,
                    chain_id,
                    due_packets(old(self)@, chain_id@, observed_height, now_ms),
                    observed_height,
                    now_ms,
                );
                &&& r@ == t.reports
                &&& final(self)@ == (RelayerState {
                    in_flight: kept(
                        old(self)@.in_flight,
                        |p: InFlightPacket| !is_due(p, chain_id@, observed_height, now_ms),
                    ),
                    ..t.relayer
                })
                &&& final(chain)@ == (ChainState { block_time: t.estimator, ..old(chain)@ })
            }),
    {
        let ghost s = self@;
        let ghost e = chain@.block_time;
        let ghost chain0 = chain@;
        let ghost chain_id = chain@.config.chain_id;
        let ghost all = self.in_flight.entries();
        let ghost due = |x: ((Seq<char>, u64), InFlightPacket)|
            is_due(x.1, chain_id@, observed_height, now_ms);
        let ghost stays = |p: InFlightPacket| !is_due(p, chain_id@, observed_height, now_ms);
        let ghost stays_entry = |x: ((Seq<char>, u64), InFlightPacket)| stays(x.1);
        let ghost mut k: int = 0;
        let mut resolutions: Vec<PacketResolution> = Vec::new();
        let mut i: usize = 0;
        let mut n: usize = self.in_flight.len();
        proof {
            self.in_flight.lemma_listing();
            self.in_flight.lemma_ascending();
            reveal(Seq::filter);
            assert(all.take(0) =~= Seq::<((Seq<char>, u64), InFlightPacket)>::empty());
            assert(all =~= all.take(0).filter(stays_entry) + all.skip(0));
        }
        while i < n
            invariant
                self.wf(),
                chain.wf(),
                n == self.in_flight.count(),
                0 <= k <= all.len(),
                due == (|x: ((Seq<char>, u64), InFlightPacket)|
                    is_due(x.1, chain_id@, observed_height, now_ms)),
                stays == (|p: InFlightPacket| !is_due(p, chain_id@, observed_height, now_ms)),
                stays_entry == (|x: ((Seq<char>, u64), InFlightPacket)| stays(x.1)),
                i == all.take(k).filter(stays_entry).len(),
                self.in_flight.entries() == all.take(k).filter(stays_entry) + all.skip(k),
                chain0.config.chain_id == chain_id,
                ({
                    let t = timed_out(
                        s,
                        e,
                        chain_id,
                        all.take(k).filter(due),
                        observed_height,
                        now_ms,
                    );
                    &&& resolutions@ == t.reports
                    &&& self@.windows == t.relayer.windows
                    &&& self@.events == t.relayer.events
                    &&& chain@ == (ChainState { block_time: t.estimator, ..chain0 })
                }),
            decreases all.len() - k,
        {
            proof {
                    lemma_filter_step(all, k, due);
                lemma_filter_step(all, k, stays_entry);
                assert(self.in_flight.entries()[i as int] == all[k]);
                self.in_flight.lemma_at(i as int);
            }
            let packet: &InFlightPacket = self.in_flight.value_at(i);
            let reached: bool = observed_height >= packet.estimate.timeout_height;
            let is_due_now: bool = text_equal(
                packet.dest_chain.as_str(),
                chain.config.chain_id.as_str(),
            ) && (reached || now_ms > packet.latest_acceptable_ms());
            if is_due_now {
                let ghost before = self@;
                let ghost estimator_before = chain@.block_time;
                let packet: InFlightPacket = self.in_flight.remove_at(i);
                let miss: Option<TimeoutMiss> = if !reached {
                    Some(TimeoutMiss::TooLate)
                } else if now_ms < packet.earliest_acceptable_ms() {
                    Some(TimeoutMiss::TooEarly)
                } else if now_ms > packet.latest_acceptable_ms() {
                    Some(TimeoutMiss::TooLate)
                } else {
                    None
                };
                let outcome: PacketOutcome = if reached {
                    PacketOutcome::TimedOutOnHeight
                } else {
                    PacketOutcome::TimedOutBeyondWindow
                };
                proof {
                    assert(all.take(k + 1).filter(due).drop_last() =~= all.take(k).filter(due));
                    assert(all.take(k + 1).filter(due).last() == all[k]);
                    assert(self.in_flight.entries() =~= all.take(k + 1).filter(stays_entry)
                        + all.skip(k + 1));
                }
                let report: PacketResolution = self.resolve(
                    chain,
                    packet,
                    outcome,
                    miss,
                    observed_height,
                    now_ms,
                );
                resolutions.push(report);
                n = n - 1;
            } else {
                proof {
                    assert(self.in_flight.entries() =~= all.take(k + 1).filter(stays_entry)
                        + all.skip(k + 1));
                }
                i = i + 1;
            }
            proof {
                k = k + 1;
            }
        }
        proof {
            assert(all.take(k) =~= all);
            assert(self.in_flight.entries() =~= all.filter(stays_entry));
            self.in_flight.lemma_ascending();
            lemma_filtered_map::<PacketId, InFlightPacket>(all, self.in_flight.entries(), stays);
        }
        resolutions
    }

    /// Records one resolution, emits a misestimation event if it missed, and evaluates the
    /// recalibration trigger.
    fn resolve(
        &mut self,
        chain: &mut ConnectedChain,
        packet: InFlightPacket,
        outcome: PacketOutcome,
        miss: Option<TimeoutMiss>,
        observed_height: u64,
        now_ms: u64,
    ) -> (r: PacketResolution)
        requires
            old(self).wf(),
            old(chain).wf(),
        ensures
            final(self).wf(),
            final(chain).wf(),
            final(self).in_flight == old(self).in_flight,
            r == resolution(
                old(self)@,
                old(chain)@.config.chain_id,
                packet,
                outcome,
                miss,
                observed_height,
                now_ms,
            ),
            final(self)@ == resolved(
                old(self)@,
                old(chain)@.block_time,
                old(chain)@.config.chain_id,
                packet,
                miss,
                observed_height,
                now_ms,
            ),
            final(chain)@ == (ChainState {
                block_time: estimator_after(
                    old(self)@,
                    old(chain)@.block_time,
                    old(chain)@.config.chain_id,
                    packet,
                    miss,
                ),
                ..old(chain)@
            }),
    {
        let chain_id: ChainId = chain.config.chain_id.clone();
        let intended_deadline_ms: u64 = packet.intended_deadline_ms();
        if let Some(direction) = miss {
            self.events.push(
                IbcRelayerEvent::PacketTimeoutMisestimation {
                    packet_id: packet.id.clone(),
                    dest_chain: chain_id.clone(),
                    direction,
                    timeout_height: packet.estimate.timeout_height,
                    reference_height: packet.estimate.reference_height,
                    observed_height,
                    sent_at_ms: packet.sent_at_ms,
                    timeout_delta_ms: packet.timeout_delta_ms,
                    intended_deadline_ms,
                    observed_at_ms: now_ms,
                    mean_block_time_ms: packet.estimate.mean_block_time_ms,
                    p95_block_time_ms: packet.estimate.p95_block_time_ms,
                    dispersion_bps: packet.estimate.dispersion_bps,
                    cold_start: packet.estimate.cold_start,
                },
            );
        }
        let tripped: bool = if packet.estimate.cold_start {
            false
        } else {
            self.record_and_recalibrate(chain, &chain_id, miss)
        };
        PacketResolution {
            packet_id: packet.id,
            outcome,
            miss,
            observed_height,
            observed_at_ms: now_ms,
            intended_deadline_ms,
            recalibrated: tripped,
        }
    }

    /// Takes a resolution into the window of a chain, and applies the recalibration if that trips
    /// the trigger.
    fn record_and_recalibrate(
        &mut self,
        chain: &mut ConnectedChain,
        chain_id: &ChainId,
        miss: Option<TimeoutMiss>,
    ) -> (r: bool)
        requires
            old(self).wf(),
            old(chain).wf(),
        ensures
            final(self).wf(),
            final(chain).wf(),
            final(self).in_flight == old(self).in_flight,
            ({
                let w = next_window(old(self)@, *chain_id, miss);
                &&& r == trips(w)
                &&& final(self)@ == if trips(w) {
                    RelayerState {
                        windows: old(self)@.windows.insert(chain_id@, Seq::empty()),
                        events: old(self)@.events.push(
                            recalibration_event(w, *chain_id, old(chain)@.block_time),
                        ),
                        ..old(self)@
                    }
                } else {
                    RelayerState {
                        windows: old(self)@.windows.insert(chain_id@, w),
                        ..old(self)@
                    }
                }
                &&& final(chain)@ == (ChainState {
                    block_time: if trips(w) {
                        recalibrated(w, old(chain)@.block_time)
                    } else {
                        old(chain)@.block_time
                    },
                    ..old(chain)@
                })
            }),
    {
        let ghost windows = self.windows@;
        let mut window: MisestimationWindow = match self.windows.remove(chain_id) {
            Some(window) => window,
            None => MisestimationWindow { outcomes: Vec::new() },
        };
        proof {
            assert(window.outcomes@ =~= window_of(old(self)@, chain_id@));
        }
        window.record(miss);
        let ghost w = window.outcomes@;
        let mut tripped: bool = false;
        if window.is_full() {
            if let Some(rate_bps) = window.rate_bps() {
                if rate_bps > MAX_MISESTIMATION_RATE_BPS {
                    tripped = true;
                    let (early_count, late_count) = window.counts();
                    window.clear();
                    let reseeded_block_time_ms: Option<u64> = chain.block_time.reseed_from_ema();
                    let cold_start_reentered: bool = early_count > late_count;
                    if cold_start_reentered {
                        chain.block_time.reset_cold_start();
                    }
                    self.events.push(
                        IbcRelayerEvent::EstimatorRecalibrated {
                            dest_chain: chain_id.clone(),
                            misestimation_rate_bps: rate_bps,
                            early_count,
                            late_count,
                            reseeded_block_time_ms,
                            cold_start_reentered,
                        },
                    );
                }
            }
        }
        let ghost removed = self.windows@;
        let ghost last = window;
        self.windows.insert(chain_id.clone(), window);
        proof {
            lemma_mapped_insert(windows, chain_id@, last, outcomes_of());
            assert(removed.insert(chain_id@, last) =~= windows.insert(chain_id@, last));
        }
        tripped
    }

    /// Misestimation rate for a chain over its current window, in basis points.
    pub fn misestimation_rate_bps(&self, chain_id: &str) -> (r: Option<u64>)
        requires
            self.wf(),
        ensures
            r is Some <==> window_of(self@, chain_id@).len() > 0,
            r matches Some(rate) ==> rate == miss_rate(window_of(self@, chain_id@)),
    {
        match self.windows.get_text(chain_id) {
            Some(window) => window.rate_bps(),
            None => None,
        }
    }

    /// Number of resolutions currently in a chain's misestimation window.
    pub fn resolved_in_window(&self, chain_id: &str) -> (r: usize)
        requires
            self.wf(),
        ensures
            r == window_of(self@, chain_id@).len(),
    {
        match self.windows.get_text(chain_id) {
            Some(window) => window.outcomes.len(),
            None => 0,
        }
    }

    /// Number of packets currently in flight.
    pub fn in_flight_count(&self) -> (r: usize)
        requires
            self.wf(),
        ensures
            r == self@.in_flight.dom().len(),
    {
        self.in_flight.len()
    }

    /// Returns an in-flight packet, if tracked.
    pub fn in_flight(&self, id: &PacketId) -> (r: Option<&InFlightPacket>)
        requires
            self.wf(),
        ensures
            r is Some <==> self@.in_flight.dom().contains(id.model()),
            r matches Some(p) ==> *p == self@.in_flight[id.model()],
    {
        self.in_flight.get(id)
    }

    /// Accumulated observability events.
    pub fn events(&self) -> (r: &[IbcRelayerEvent])
        ensures
            r@ == self@.events,
    {
        self.events.as_slice()
    }

    /// Takes the accumulated events, leaving the buffer empty.
    pub fn drain_events(&mut self) -> (r: Vec<IbcRelayerEvent>)
        requires
            old(self).wf(),
        ensures
            final(self).wf(),
            r@ == old(self)@.events,
            final(self)@ == (RelayerState { events: Seq::empty(), ..old(self)@ }),
    {
        let mut drained: Vec<IbcRelayerEvent> = Vec::new();
        core::mem::swap(&mut self.events, &mut drained);
        drained
    }
}

impl Default for PacketRelayer {
    fn default() -> (r: Self)
        ensures
            r.wf(),
            r@ == (RelayerState {
                in_flight: Map::empty(),
                windows: Map::empty(),
                events: Seq::empty(),
            }),
    {
        Self::new()
    }
}

/// A packet that is sent is in flight under its identifier, with the times and the estimate it was
/// sent with; no other packet, no window and no event changes.
pub proof fn law_sent_packet_is_in_flight(
    s: RelayerState,
    id: PacketId,
    dest_chain: ChainId,
    sent_at_ms: u64,
    timeout_delta_ms: u64,
    estimate: TimeoutEstimate,
    other: (Seq<char>, u64),
)
    requires
        other != (id.channel@, id.sequence),
    ensures
        ({
            let t = packet_sent(s, id, dest_chain, sent_at_ms, timeout_delta_ms, estimate);
            let k = (id.channel@, id.sequence);
            &&& t.in_flight.dom().contains(k)
            &&& t.in_flight[k].id == id
            &&& t.in_flight[k].dest_chain == dest_chain
            &&& t.in_flight[k].sent_at_ms == sent_at_ms
            &&& t.in_flight[k].timeout_delta_ms == timeout_delta_ms
            &&& t.in_flight[k].estimate == estimate
            &&& t.in_flight.dom().contains(other) == s.in_flight.dom().contains(other)
            &&& t.in_flight[other] == s.in_flight[other]
            &&& t.windows == s.windows
            &&& t.events == s.events
        }),
{
}

/// The accuracy band of a packet is half its own window wide on either side of the deadline that
/// was meant. A packet is due once its chain reaches its timeout height or the band is over; it
/// times out on height if the height is reached, and then it missed exactly where that happened
/// outside the band, too early before it and too late after it; where the height is not reached it
/// is too late.
pub proof fn law_accuracy_band_is_half_the_window(
    p: InFlightPacket,
    chain_id: Seq<char>,
    observed_height: u64,
    now: u64,
)
    requires
        p.sent_at_ms + p.timeout_delta_ms + p.timeout_delta_ms / 2 <= u64::MAX,
    ensures
        ({
            let deadline = p.sent_at_ms + p.timeout_delta_ms;
            let half = p.timeout_delta_ms / 2;
            let reached = observed_height >= p.estimate.timeout_height;
            let (outcome, miss) = timeout_outcome(p, observed_height, now);
            &&& is_due(p, chain_id, observed_height, now) <==> p.dest_chain@ == chain_id && (reached
                || now > deadline + half)
            &&& outcome == PacketOutcome::TimedOutOnHeight <==> reached
            &&& outcome == PacketOutcome::TimedOutBeyondWindow <==> !reached
            &&& reached ==> (miss is None <==> deadline - half <= now <= deadline + half)
            &&& reached ==> (miss == Some(TimeoutMiss::TooEarly) <==> now < deadline - half)
            &&& reached ==> (miss == Some(TimeoutMiss::TooLate) <==> now > deadline + half)
            &&& !reached ==> miss == Some(TimeoutMiss::TooLate)
            &&& intended_deadline(p) == deadline
            &&& tolerance(p) == half
            &&& earliest_acceptable(p) == deadline - half
            &&& latest_acceptable(p) == deadline + half
        }),
{
    assert(p.timeout_delta_ms * 5_000 / 10_000 == p.timeout_delta_ms / 2);
}

/// Every packet that is due is reported once, in its order, at the height and time observed, with
/// the outcome and the miss that its own accuracy band gives.
pub proof fn law_reports_judge_each_packet_by_its_own_window(
    s: RelayerState,
    e: EstimatorState,
    chain_id: ChainId,
    due: Seq<((Seq<char>, u64), InFlightPacket)>,
    observed_height: u64,
    now: u64,
    i: int,
)
    requires
        0 <= i < due.len(),
        due[i].1.sent_at_ms + due[i].1.timeout_delta_ms + due[i].1.timeout_delta_ms / 2 <= u64::MAX,
    ensures
        ({
            let reports = timed_out(s, e, chain_id, due, observed_height, now).reports;
            let p = due[i].1;
            let r = reports[i];
            let deadline = p.sent_at_ms + p.timeout_delta_ms;
            let half = p.timeout_delta_ms / 2;
            let reached = observed_height >= p.estimate.timeout_height;
            &&& reports.len() == due.len()
            &&& r.packet_id == p.id
            &&& r.observed_height == observed_height
            &&& r.observed_at_ms == now
            &&& r.intended_deadline_ms == deadline
            &&& r.outcome == PacketOutcome::TimedOutOnHeight <==> reached
            &&& r.outcome == PacketOutcome::TimedOutBeyondWindow <==> !reached
            &&& r.miss is None <==> reached && deadline - half <= now <= deadline + half
            &&& r.miss == Some(TimeoutMiss::TooEarly) <==> reached && now < deadline - half
            &&& p.estimate.cold_start ==> !r.recalibrated
        }),
    decreases due.len(),
{
    let init = due.drop_last();
    lemma_report_count(s, e, chain_id, due, observed_height, now);
    lemma_report_count(s, e, chain_id, init, observed_height, now);
    law_accuracy_band_is_half_the_window(due[i].1, chain_id@, observed_height, now);
    if i < due.len() - 1 {
        assert(init[i] == due[i]);
        law_reports_judge_each_packet_by_its_own_window(
            s,
            e,
            chain_id,
            init,
            observed_height,
            now,
            i,
        );
    }
}

proof fn lemma_report_count(
    s: RelayerState,
    e: EstimatorState,
    chain_id: ChainId,
    due: Seq<((Seq<char>, u64), InFlightPacket)>,
    observed_height: u64,
    now: u64,
)
    ensures
        timed_out(s, e, chain_id, due, observed_height, now).reports.len() == due.len(),
    decreases due.len(),
{
    if due.len() > 0 {
        lemma_report_count(s, e, chain_id, due.drop_last(), observed_height, now);
    }
}

/// The count of misses takes in every resolution once.
pub proof fn law_count_takes_in_a_resolution(
    w: Seq<Option<TimeoutMiss>>,
    miss: Option<TimeoutMiss>,
    direction: TimeoutMiss,
)
    ensures
        miss_count(Seq::<Option<TimeoutMiss>>::empty(), direction) == 0,
        miss_count(w.push(miss), direction) == miss_count(w, direction) + (if miss == Some(
            direction,
        ) {
            1nat
        } else {
            0nat
        }),
{
    assert(w.push(miss).drop_last() =~= w);
}

/// The rate is the share of misses of both kinds in basis points, rounded down; a window of 100
/// trips the trigger from the sixth miss on, and a shorter one never.
pub proof fn law_rate_is_the_share_of_misses(w: Seq<Option<TimeoutMiss>>)
    requires
        0 < w.len() <= 100,
    ensures
        ({
            let misses = miss_count(w, TimeoutMiss::TooEarly) + miss_count(w, TimeoutMiss::TooLate);
            &&& miss_rate(w) * w.len() <= misses * 10_000 < (miss_rate(w) + 1) * w.len()
            &&& trips(w) <==> w.len() == 100 && misses >= 6
        }),
{
    law_trigger_boundary(w);
    let n = w.len() as int;
    let misses = miss_count(w, TimeoutMiss::TooEarly) + miss_count(w, TimeoutMiss::TooLate);
    let x = misses * 10_000int;
    vstd::arithmetic::div_mod::lemma_fundamental_div_mod(x, n);
    vstd::arithmetic::div_mod::lemma_mod_bound(x, n);
    let q = x / n;
    assert(n * q == q * n) by (nonlinear_arith);
    assert((q + 1) * n == q * n + n) by (nonlinear_arith);
}

/// Resolving a packet reports a miss with what was expected of it, at the end of the events, and
/// nothing where it did not miss. Unless it had the margin, it then goes to the end of its chain's
/// window of 100; a window that trips is emptied, and the recalibration is reported with its rate
/// and its misses.
pub proof fn law_resolution_is_recorded(
    s: RelayerState,
    e: EstimatorState,
    chain_id: ChainId,
    p: InFlightPacket,
    miss: Option<TimeoutMiss>,
    observed_height: u64,
    now: u64,
)
    requires
        window_of(s, chain_id@).len() <= 100,
    ensures
        ({
            let t = resolved(s, e, chain_id, p, miss, observed_height, now);
            let w = window_of(s, chain_id@);
            let full = w.push(miss);
            let next = if w.len() < 100 {
                full
            } else {
                full.drop_first()
            };
            let early = miss_count(next, TimeoutMiss::TooEarly);
            let late = miss_count(next, TimeoutMiss::TooLate);
            let trip = !p.estimate.cold_start && next.len() == 100 && early + late >= 6;
            let n: int = if miss is Some {
                1
            } else {
                0
            };
            &&& t.in_flight == s.in_flight
            &&& resolution_trips(s, chain_id, p, miss) == trip
            &&& t.events.len() == s.events.len() + n + (if trip {
                1int
            } else {
                0int
            })
            &&& forall|i: int| 0 <= i < s.events.len() ==> #[trigger] t.events[i] == s.events[i]
            &&& miss matches Some(direction) ==> (t.events[s.events.len() as int] matches
                IbcRelayerEvent::PacketTimeoutMisestimation {
                packet_id,
                dest_chain,
                direction: d,
                timeout_height,
                reference_height,
                observed_height: at_height,
                sent_at_ms,
                timeout_delta_ms,
                intended_deadline_ms,
                observed_at_ms,
                mean_block_time_ms,
                cold_start,
                ..
            } && packet_id == p.id && dest_chain == chain_id && d == direction && timeout_height
                == p.estimate.timeout_height && reference_height == p.estimate.reference_height
                && at_height == observed_height && sent_at_ms == p.sent_at_ms && timeout_delta_ms
                == p.timeout_delta_ms && intended_deadline_ms == intended_deadline(p)
                && observed_at_ms == now && mean_block_time_ms == p.estimate.mean_block_time_ms
                && cold_start == p.estimate.cold_start)
            &&& trip ==> (t.events.last() matches IbcRelayerEvent::EstimatorRecalibrated {
                dest_chain,
                misestimation_rate_bps,
                early_count,
                late_count,
                reseeded_block_time_ms,
                cold_start_reentered,
            } && dest_chain == chain_id && misestimation_rate_bps == (early + late) * 100
                && early_count == early && late_count == late && reseeded_block_time_ms == e.ema_ms
                && cold_start_reentered == (early > late))
            &&& p.estimate.cold_start ==> t.windows == s.windows
            &&& !p.estimate.cold_start ==> window_of(t, chain_id@) == if trip {
                Seq::<Option<TimeoutMiss>>::empty()
            } else {
                next
            }
        }),
{
    let w = window_of(s, chain_id@);
    if w.len() >= 100 {
        assert(w.push(miss).drop_first() =~= w.drop_first().push(miss));
    }
    let next = next_window(s, chain_id, miss);
    law_rate_is_the_share_of_misses(next);
    lemma_miss_counts_bounded(next);
    let misses = miss_count(next, TimeoutMiss::TooEarly) + miss_count(next, TimeoutMiss::TooLate);
    let t = resolved(s, e, chain_id, p, miss, observed_height, now);
    assert(next.len() == 100 ==> miss_rate(next) == misses * 100);
    assert(resolution_trips(s, chain_id, p, miss) == (!p.estimate.cold_start && next.len() == 100
        && misses >= 6));
    if !p.estimate.cold_start {
        assert(t.windows.dom().contains(chain_id@));
        assert(window_of(t, chain_id@) == t.windows[chain_id@]);
    }
    if miss is Some {
        assert(t.events[s.events.len() as int] == miss_event(
            p,
            chain_id,
            miss->0,
            observed_height,
            now,
        ));
    }
    if resolution_trips(s, chain_id, p, miss) {
        assert(t.events.last() == recalibration_event(next, chain_id, e));
    }
}

/// Without a trip the estimator stays as it is. A trip leaves it the average as its only sample, and
/// starts the cold-start packets over where more packets were too early than too late.
pub proof fn law_trip_recalibrates_the_estimator(
    s: RelayerState,
    e: EstimatorState,
    chain_id: ChainId,
    p: InFlightPacket,
    miss: Option<TimeoutMiss>,
)
    ensures
        ({
            let t = estimator_after(s, e, chain_id, p, miss);
            let w = next_window(s, chain_id, miss);
            let early = miss_count(w, TimeoutMiss::TooEarly);
            let late = miss_count(w, TimeoutMiss::TooLate);
            let trip = resolution_trips(s, chain_id, p, miss);
            &&& !trip ==> t == e
            &&& trip ==> {
                &&& t.packets_issued == (if early > late {
                    0
                } else {
                    e.packets_issued
                })
                &&& e.ema_ms matches Some(seed) ==> t.samples == seq![seed]
                &&& e.ema_ms is None ==> t.samples == e.samples
                &&& t.ema_ms == e.ema_ms
                &&& t.anchor == e.anchor
            }
        }),
{
}

} // verus!
