use verinode_core::cross_chain::ibc::packet_relayer::{
    IbcRelayerError, IbcRelayerEvent, MAX_MISESTIMATION_RATE_BPS, PacketId, PacketOutcome,
    PacketRelayer, PacketResolution, TimeoutMiss,
};
use verinode_core::cross_chain::ibc::packet_timeout::{COLD_START_PACKET_COUNT, IbcTimeoutError};
use verinode_core::cross_chain::light_client::ConnectedChain;
use verinode_core::cross_chain::types::ChainConfig;

/// Every packet in these tests asks for a 60 s window on a 2 s chain, which
/// is `ceil(60_000 / 2_000) = 30` blocks from a reference height of 0:
///
/// ```text
/// timeout_height       = 30
/// intended deadline    = sent_at (0) + 60_000 = 60_000 ms
/// tolerance            = 60_000 * 5_000 / 10_000 = 30_000 ms
/// accuracy band        = [30_000, 90_000] ms, inclusive both ends
/// ```
const DELTA_MS: u64 = 60_000;
const TIMEOUT_HEIGHT: u64 = 30;
const BAND_START_MS: u64 = 30_000;
const BAND_END_MS: u64 = 90_000;

/// A 2 s chain whose estimator is warm (100 samples) and past cold start,
/// so every packet gets the un-margined 30-block count above.
fn warm_chain() -> ConnectedChain {
    let mut chain = ConnectedChain::new(ChainConfig::new("dest".into(), 2_000, 32, 1), 0);
    for _ in 0..100 {
        chain.block_time.record_block_time_ms(2_000);
    }
    for _ in 0..COLD_START_PACKET_COUNT {
        chain.block_time.note_packet_issued();
    }
    chain
}

fn packet(sequence: u64) -> PacketId {
    PacketId::new("channel-0".into(), sequence)
}

/// Sends packet `sequence` at t=0 and resolves it at `resolve_at_ms` with
/// the destination chain at `observed_height`.
fn cycle(
    relayer: &mut PacketRelayer,
    chain: &mut ConnectedChain,
    sequence: u64,
    observed_height: u64,
    resolve_at_ms: u64,
) -> PacketResolution {
    let estimate = relayer
        .send_packet(chain, packet(sequence), 0, 0, DELTA_MS)
        .unwrap();
    assert_eq!(estimate.timeout_height, TIMEOUT_HEIGHT);
    let mut resolutions =
        relayer.observe_destination_height(chain, observed_height, resolve_at_ms);
    assert_eq!(
        resolutions.len(),
        1,
        "packet {sequence} should have resolved"
    );
    resolutions.remove(0)
}

/// Resolves `count` packets, starting at sequence `from`, each landing
/// inside the accuracy band.
fn accurate_run(
    relayer: &mut PacketRelayer,
    chain: &mut ConnectedChain,
    from: u64,
    count: u64,
) {
    for sequence in from..from + count {
        let res = cycle(relayer, chain, sequence, TIMEOUT_HEIGHT, DELTA_MS);
        assert_eq!(res.miss, None);
        assert!(!res.recalibrated);
    }
}

/// Resolves `count` packets that miss in `direction`.
fn miss_run(
    relayer: &mut PacketRelayer,
    chain: &mut ConnectedChain,
    from: u64,
    count: u64,
    direction: TimeoutMiss,
) -> Vec<PacketResolution> {
    let at_ms = match direction {
        TimeoutMiss::TooEarly => BAND_START_MS - 1,
        TimeoutMiss::TooLate => BAND_END_MS + 1,
    };
    (from..from + count)
        .map(|sequence| {
            let res = cycle(relayer, chain, sequence, TIMEOUT_HEIGHT, at_ms);
            assert_eq!(res.miss, Some(direction));
            res
        })
        .collect()
}

// -----------------------------------------------------------------------
// Classification and its exact boundaries
// -----------------------------------------------------------------------

#[test]
fn a_deadline_inside_the_band_is_accurate() {
    let (mut relayer, mut chain) = (PacketRelayer::new(), warm_chain());
    let res = cycle(&mut relayer, &mut chain, 1, TIMEOUT_HEIGHT, DELTA_MS);
    assert_eq!(res.outcome, PacketOutcome::TimedOutOnHeight);
    assert_eq!(res.miss, None);
    assert_eq!(res.intended_deadline_ms, 60_000);
    assert!(
        relayer.events().is_empty(),
        "an accurate packet emits nothing"
    );
}

#[test]
fn the_accuracy_band_is_inclusive_at_both_ends() {
    // Exactly at the early edge: accurate. One millisecond earlier: early.
    let (mut relayer, mut chain) = (PacketRelayer::new(), warm_chain());
    assert_eq!(
        cycle(&mut relayer, &mut chain, 1, TIMEOUT_HEIGHT, BAND_START_MS).miss,
        None
    );
    assert_eq!(
        cycle(
            &mut relayer,
            &mut chain,
            2,
            TIMEOUT_HEIGHT,
            BAND_START_MS - 1
        )
        .miss,
        Some(TimeoutMiss::TooEarly)
    );
    // Exactly at the late edge: accurate. One millisecond later: late.
    assert_eq!(
        cycle(&mut relayer, &mut chain, 3, TIMEOUT_HEIGHT, BAND_END_MS).miss,
        None
    );
    assert_eq!(
        cycle(&mut relayer, &mut chain, 4, TIMEOUT_HEIGHT, BAND_END_MS + 1).miss,
        Some(TimeoutMiss::TooLate)
    );
}

#[test]
fn a_packet_outliving_its_window_below_the_timeout_height_is_a_late_miss() {
    // The destination is still *below* the
    // estimated timeout height when the intended window has run out, so the
    // chain ran slower than the estimate predicted.
    let (mut relayer, mut chain) = (PacketRelayer::new(), warm_chain());
    let res = cycle(
        &mut relayer,
        &mut chain,
        1,
        TIMEOUT_HEIGHT - 1,
        BAND_END_MS + 1,
    );
    assert_eq!(res.outcome, PacketOutcome::TimedOutBeyondWindow);
    assert_eq!(res.miss, Some(TimeoutMiss::TooLate));
    assert_eq!(res.observed_height, 29);
}

#[test]
fn a_packet_below_its_timeout_height_and_inside_its_window_stays_in_flight() {
    let (mut relayer, mut chain) = (PacketRelayer::new(), warm_chain());
    relayer
        .send_packet(&mut chain, packet(1), 0, 0, DELTA_MS)
        .unwrap();
    assert!(relayer
        .observe_destination_height(&mut chain, 29, BAND_END_MS)
        .is_empty());
    assert_eq!(relayer.in_flight_count(), 1);
}

#[test]
fn an_acknowledged_packet_counts_in_the_denominator_but_never_as_a_miss() {
    let (mut relayer, mut chain) = (PacketRelayer::new(), warm_chain());
    relayer
        .send_packet(&mut chain, packet(1), 0, 0, DELTA_MS)
        .unwrap();
    let res = relayer
        .acknowledge_packet(&mut chain, &packet(1), 12, 20_000)
        .unwrap();
    assert_eq!(res.outcome, PacketOutcome::Acknowledged);
    assert_eq!(res.miss, None);
    assert_eq!(relayer.resolved_in_window("dest"), 1);
    assert_eq!(relayer.misestimation_rate_bps("dest"), Some(0));
}

// -----------------------------------------------------------------------
// The misestimation event's diagnostic payload
// -----------------------------------------------------------------------

#[test]
fn the_misestimation_event_carries_both_sides_of_the_comparison() {
    let mut relayer = PacketRelayer::new();
    // A chain whose window says 2 s but whose estimator has seen spikes, so
    // the event's dispersion field is meaningful.
    let mut chain = ConnectedChain::new(ChainConfig::new("dest".into(), 2_000, 32, 1), 0);
    for i in 0..100 {
        chain
            .block_time
            .record_block_time_ms(if i % 10 == 9 { 30_000 } else { 2_000 });
    }
    for _ in 0..COLD_START_PACKET_COUNT {
        chain.block_time.note_packet_issued();
    }

    // mean 4_800 -> ceil(60_000 / 4_800) = 13 blocks from height 500.
    let estimate = relayer
        .send_packet(&mut chain, packet(7), 500, 1_000, DELTA_MS)
        .unwrap();
    assert_eq!(estimate.timeout_height, 513);
    // Resolved far past the band: deadline 61_000, tolerance 30_000.
    relayer.observe_destination_height(&mut chain, 520, 200_000);

    let events = relayer.drain_events();
    assert_eq!(events.len(), 1);
    let IbcRelayerEvent::PacketTimeoutMisestimation {
        packet_id,
        dest_chain,
        direction,
        timeout_height,
        reference_height,
        observed_height,
        sent_at_ms,
        timeout_delta_ms,
        intended_deadline_ms,
        observed_at_ms,
        mean_block_time_ms,
        p95_block_time_ms,
        dispersion_bps,
        cold_start,
    } = events[0].clone()
    else {
        panic!("expected a misestimation event, got {:?}", events[0]);
    };

    // Which packet, on which chain, and which way it missed.
    assert_eq!(packet_id, packet(7));
    assert_eq!(dest_chain, "dest");
    assert_eq!(direction, TimeoutMiss::TooLate);
    // Estimated versus actual height.
    assert_eq!(reference_height, 500);
    assert_eq!(timeout_height, 513);
    assert_eq!(observed_height, 520);
    // Estimated versus actual time.
    assert_eq!(sent_at_ms, 1_000);
    assert_eq!(timeout_delta_ms, 60_000);
    assert_eq!(intended_deadline_ms, 61_000);
    assert_eq!(observed_at_ms, 200_000);
    // The estimator state that produced the height, which cannot be
    // recovered later because the sample window has slid on.
    assert_eq!(mean_block_time_ms, 4_800);
    assert_eq!(p95_block_time_ms, Some(30_000));
    assert_eq!(dispersion_bps, 62_500);
    assert!(!cold_start);
    // 62_500 bps says "variable", not "uniformly slow" -- the operator can
    // tell the two failure modes apart from the event alone.
    assert!(dispersion_bps > 60_000);
}

// -----------------------------------------------------------------------
// The recalibration trigger and its 5% boundary
// -----------------------------------------------------------------------

#[test]
fn the_trigger_is_disarmed_until_the_window_is_full() {
    let (mut relayer, mut chain) = (PacketRelayer::new(), warm_chain());
    // 1 miss in 3 resolutions is a 33% rate, and must not fire: a rate over
    // three packets is noise, not evidence.
    accurate_run(&mut relayer, &mut chain, 1, 2);
    let res = miss_run(&mut relayer, &mut chain, 3, 1, TimeoutMiss::TooEarly);
    assert!(!res[0].recalibrated);
    assert_eq!(relayer.misestimation_rate_bps("dest"), Some(3_333));
    assert_eq!(relayer.resolved_in_window("dest"), 3);
}

#[test]
fn the_trigger_does_not_fire_at_exactly_five_percent() {
    let (mut relayer, mut chain) = (PacketRelayer::new(), warm_chain());
    accurate_run(&mut relayer, &mut chain, 1, 95);
    let misses = miss_run(&mut relayer, &mut chain, 96, 5, TimeoutMiss::TooEarly);
    assert!(misses.iter().all(|r| !r.recalibrated));
    // 5 * 10_000 / 100 = 500 bps, exactly the bound, which is not above it.
    assert_eq!(relayer.misestimation_rate_bps("dest"), Some(500));
    assert_eq!(
        relayer.misestimation_rate_bps("dest"),
        Some(MAX_MISESTIMATION_RATE_BPS)
    );
    assert_eq!(relayer.resolved_in_window("dest"), 100);
    // Only the five per-packet misestimation events; no recalibration.
    assert_eq!(relayer.events().len(), 5);
}

#[test]
fn the_trigger_fires_at_six_percent() {
    let (mut relayer, mut chain) = (PacketRelayer::new(), warm_chain());
    accurate_run(&mut relayer, &mut chain, 1, 95);
    miss_run(&mut relayer, &mut chain, 96, 5, TimeoutMiss::TooEarly);
    // The 101st resolution overwrites the oldest (accurate) slot with a
    // sixth miss: 6 * 10_000 / 100 = 600 bps, which is above the bound.
    let sixth = miss_run(&mut relayer, &mut chain, 101, 1, TimeoutMiss::TooEarly);
    assert!(sixth[0].recalibrated);

    let recal = relayer
        .events()
        .iter()
        .find_map(|e| match e {
            IbcRelayerEvent::EstimatorRecalibrated {
                misestimation_rate_bps,
                early_count,
                late_count,
                reseeded_block_time_ms,
                cold_start_reentered,
                ..
            } => Some((
                *misestimation_rate_bps,
                *early_count,
                *late_count,
                *reseeded_block_time_ms,
                *cold_start_reentered,
            )),
            _ => None,
        })
        .expect("a recalibration event");
    assert_eq!(recal.0, 600);
    assert_eq!(recal.1, 6); // early
    assert_eq!(recal.2, 0); // late
    assert_eq!(recal.3, Some(2_000)); // re-seeded from the EMA
    assert!(recal.4); // early misses in strict majority -> cold start

    // The window was cleared, so the trigger cannot re-fire on the same
    // evidence for the next 95 packets.
    assert_eq!(relayer.resolved_in_window("dest"), 0);
    assert_eq!(relayer.misestimation_rate_bps("dest"), None);
    // And the estimator was re-seeded from the EMA rather than emptied.
    assert_eq!(chain.block_time.sample_count(), 1);
    assert_eq!(chain.block_time.window_mean_block_time_ms(), Some(2_000));
}

// -----------------------------------------------------------------------
// The dominant-direction gate on re-entering cold start
// -----------------------------------------------------------------------

/// Drives one full window of `early` early misses and `late` late misses
/// (padded to 101 resolutions with accurate ones) and returns whether cold
/// start was re-entered.
fn recalibrate_with(early: u64, late: u64) -> (bool, u32, u32) {
    let (mut relayer, mut chain) = (PacketRelayer::new(), warm_chain());
    let misses = early + late;
    accurate_run(&mut relayer, &mut chain, 1, 101 - misses);
    miss_run(&mut relayer, &mut chain, 200, early, TimeoutMiss::TooEarly);
    miss_run(&mut relayer, &mut chain, 300, late, TimeoutMiss::TooLate);

    relayer
        .events()
        .iter()
        .find_map(|e| match e {
            IbcRelayerEvent::EstimatorRecalibrated {
                cold_start_reentered,
                early_count,
                late_count,
                ..
            } => Some((*cold_start_reentered, *early_count, *late_count)),
            _ => None,
        })
        .expect("a recalibration event")
}

#[test]
fn cold_start_is_re_entered_only_when_early_misses_are_in_strict_majority() {
    // Early misses dominate: the 1.5x margin pushes timeouts later, which
    // is exactly the correction they need.
    assert_eq!(recalibrate_with(6, 0), (true, 6, 0));
    assert_eq!(recalibrate_with(4, 2), (true, 4, 2));

    // Boundary: a dead tie does NOT re-enter cold start. The no-margin path
    // is the conservative default, and breaking the tie would require a
    // second arbitrary threshold.
    assert_eq!(recalibrate_with(3, 3), (false, 3, 3));

    // Late misses dominate: the margin would only push timeouts later
    // still, making accuracy worse. Re-seeding from the EMA is the whole
    // correction here.
    assert_eq!(recalibrate_with(2, 4), (false, 2, 4));
    assert_eq!(recalibrate_with(0, 6), (false, 0, 6));
}

// -----------------------------------------------------------------------
// Packet bookkeeping
// -----------------------------------------------------------------------

#[test]
fn a_duplicate_packet_identifier_is_rejected() {
    let (mut relayer, mut chain) = (PacketRelayer::new(), warm_chain());
    relayer
        .send_packet(&mut chain, packet(1), 0, 0, DELTA_MS)
        .unwrap();
    assert_eq!(
        relayer.send_packet(&mut chain, packet(1), 0, 0, DELTA_MS),
        Err(IbcRelayerError::DuplicatePacket)
    );
    assert_eq!(relayer.in_flight_count(), 1);
}

#[test]
fn acknowledging_an_untracked_packet_reports_packet_not_found() {
    let (mut relayer, mut chain) = (PacketRelayer::new(), warm_chain());
    assert_eq!(
        relayer.acknowledge_packet(&mut chain, &packet(9), 0, 0),
        Err(IbcRelayerError::PacketNotFound)
    );
}

#[test]
fn a_rejected_timeout_computation_propagates_and_tracks_nothing() {
    let (mut relayer, mut chain) = (PacketRelayer::new(), warm_chain());
    assert_eq!(
        relayer.send_packet(&mut chain, packet(1), 0, 0, 1_000),
        Err(IbcRelayerError::Timeout(
            IbcTimeoutError::TimeoutDeltaOutOfRange
        ))
    );
    assert_eq!(relayer.in_flight_count(), 0);
}

#[test]
fn resolutions_are_scoped_to_the_chain_being_observed() {
    let mut relayer = PacketRelayer::new();
    let mut dest = warm_chain();
    let mut other = ConnectedChain::new(ChainConfig::new("other".into(), 2_000, 32, 1), 0);

    relayer
        .send_packet(&mut dest, packet(1), 0, 0, DELTA_MS)
        .unwrap();
    // Observing a different chain's height must not resolve this packet.
    assert!(relayer
        .observe_destination_height(&mut other, 10_000, 500_000)
        .is_empty());
    assert_eq!(relayer.in_flight_count(), 1);
    assert_eq!(
        relayer
            .observe_destination_height(&mut dest, TIMEOUT_HEIGHT, DELTA_MS)
            .len(),
        1
    );
}

#[test]
fn cold_start_packets_are_excluded_from_the_misestimation_window() {
    let mut relayer = PacketRelayer::new();
    // A fresh chain: the estimator is warm (100 samples) but no packet has
    // been issued, so the first ten are margined.
    let mut chain = ConnectedChain::new(ChainConfig::new("dest".into(), 2_000, 32, 1), 0);
    for _ in 0..100 {
        chain.block_time.record_block_time_ms(2_000);
    }

    // All ten cold-start packets miss badly (margined to 45 blocks, then
    // resolved far outside the band).
    for sequence in 1..=COLD_START_PACKET_COUNT as u64 {
        let estimate = relayer
            .send_packet(&mut chain, packet(sequence), 0, 0, DELTA_MS)
            .unwrap();
        assert!(estimate.cold_start);
        assert_eq!(estimate.timeout_height, 45); // ceil(30 * 1.5)
        let res = relayer.observe_destination_height(&mut chain, 45, BAND_END_MS + 1);
        assert_eq!(res[0].miss, Some(TimeoutMiss::TooLate));
        assert!(!res[0].recalibrated);
    }

    // Ten misses, and yet the window that drives the trigger is empty:
    // the margin caused them, not the estimator.
    assert_eq!(relayer.events().len(), COLD_START_PACKET_COUNT as usize);
    assert_eq!(relayer.resolved_in_window("dest"), 0);
    assert_eq!(relayer.misestimation_rate_bps("dest"), None);

    // The eleventh packet is un-margined and does count.
    let res = cycle(&mut relayer, &mut chain, 11, TIMEOUT_HEIGHT, DELTA_MS);
    assert_eq!(res.miss, None);
    assert_eq!(relayer.resolved_in_window("dest"), 1);
}

#[test]
fn drain_events_empties_the_buffer() {
    let (mut relayer, mut chain) = (PacketRelayer::new(), warm_chain());
    miss_run(&mut relayer, &mut chain, 1, 2, TimeoutMiss::TooEarly);
    assert_eq!(relayer.drain_events().len(), 2);
    assert!(relayer.events().is_empty());
}
