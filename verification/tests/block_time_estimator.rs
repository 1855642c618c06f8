use verinode_core::cross_chain::ibc::block_time_estimator::{
    BLOCK_TIME_WINDOW_SAMPLES, BlockTimeEstimator,
};
use verinode_core::cross_chain::types::{BPS_DENOMINATOR, ChainConfig};

fn estimator() -> BlockTimeEstimator {
    BlockTimeEstimator::new("dest".into())
}

fn config(block_time_ms: u64) -> ChainConfig {
    ChainConfig::new("dest".into(), block_time_ms, 32, 1)
}

fn feed(est: &mut BlockTimeEstimator, sample_ms: u64, times: usize) {
    for _ in 0..times {
        assert!(est.record_block_time_ms(sample_ms));
    }
}

/// A spiky chain: a 2 s baseline where every
/// tenth block takes 30 s. Window mean 4_800 ms, p95 30_000 ms.
fn spiky_window() -> BlockTimeEstimator {
    let mut est = estimator();
    for i in 0..BLOCK_TIME_WINDOW_SAMPLES {
        est.record_block_time_ms(if i % 10 == 9 { 30_000 } else { 2_000 });
    }
    est
}

/// A uniformly slow chain: 25 s blocks with 1 s of jitter, no spikes.
fn uniformly_slow_window() -> BlockTimeEstimator {
    let mut est = estimator();
    for i in 0..BLOCK_TIME_WINDOW_SAMPLES {
        est.record_block_time_ms(24_000 + (i as u64 % 3) * 1_000);
    }
    est
}

// -----------------------------------------------------------------------
// EMA
// -----------------------------------------------------------------------

#[test]
fn ema_is_unseeded_until_the_first_sample() {
    let mut est = estimator();
    assert_eq!(est.ema_block_time_ms(), None);
    est.record_block_time_ms(2_000);
    // Seeded from the first sample, not from zero.
    assert_eq!(est.ema_block_time_ms(), Some(2_000));
}

#[test]
fn ema_is_an_exact_fixed_point_on_constant_input() {
    let mut est = estimator();
    feed(&mut est, 2_000, 50);
    // alpha * x + (1 - alpha) * x == x for any alpha, and round-to-nearest
    // preserves that exactly: (10_000 * 2_000 + 5_000) / 10_000 == 2_000.
    assert_eq!(est.ema_block_time_ms(), Some(2_000));
}

#[test]
fn ema_steps_match_hand_computed_arithmetic() {
    let mut est = estimator();
    est.record_block_time_ms(2_000);
    // (3_000 * 5_000 + 7_000 * 2_000 + 5_000) / 10_000
    //   = (15_000_000 + 14_000_000 + 5_000) / 10_000 = 2_900
    est.record_block_time_ms(5_000);
    assert_eq!(est.ema_block_time_ms(), Some(2_900));
    // (15_000_000 + 7_000 * 2_900 + 5_000) / 10_000
    //   = (15_000_000 + 20_300_000 + 5_000) / 10_000 = 3_530
    est.record_block_time_ms(5_000);
    assert_eq!(est.ema_block_time_ms(), Some(3_530));
}

#[test]
fn ema_settles_to_within_one_percent_in_thirteen_samples() {
    // ln(0.01) / ln(1 - 0.3) = 12.9 samples.
    let mut est = estimator();
    est.record_block_time_ms(2_000);
    feed(&mut est, 5_000, 13);
    let ema = est.ema_block_time_ms().unwrap();
    assert!(
        ema >= 4_950,
        "EMA {ema} should be within 1% of 5_000 after 13 samples"
    );
}

#[test]
fn ema_converges_to_a_changed_constant_within_one_millisecond() {
    let mut est = estimator();
    est.record_block_time_ms(2_000);
    feed(&mut est, 5_000, 200);
    let ema = est.ema_block_time_ms().unwrap();
    // Truncating the ratio each step leaves a residue of at most 1 ms.
    assert!(
        ema.abs_diff(5_000) <= 1,
        "EMA {ema} should converge to within 1 ms of 5_000"
    );
}

// -----------------------------------------------------------------------
// Percentiles
// -----------------------------------------------------------------------

#[test]
fn p95_of_one_to_one_hundred_is_exactly_ninety_five() {
    let mut est = estimator();
    for ms in 1..=100u64 {
        est.record_block_time_ms(ms);
    }
    // Nearest rank: ceil(95/100 * 100) = 95 -> the 95th ascending value.
    assert_eq!(est.p95_block_time_ms(), Some(95));
    // The same helper at other percentiles, on the same known distribution.
    assert_eq!(est.percentile_block_time_ms(50), Some(50));
    assert_eq!(est.percentile_block_time_ms(99), Some(99));
    assert_eq!(est.percentile_block_time_ms(100), Some(100));
    assert_eq!(est.percentile_block_time_ms(1), Some(1));
}

#[test]
fn percentiles_are_well_defined_at_small_sample_counts() {
    // n = 1: ceil(0.95 * 1) = 1 -> the only sample.
    let mut one = estimator();
    one.record_block_time_ms(7_000);
    assert_eq!(one.p95_block_time_ms(), Some(7_000));
    assert_eq!(one.sample_count(), 1);

    // n = 10: ceil(9.5) = 10 -> the maximum.
    let mut ten = estimator();
    for ms in 1..=10u64 {
        ten.record_block_time_ms(ms);
    }
    assert_eq!(ten.p95_block_time_ms(), Some(10));

    // n = 20: ceil(19.0) = 19 -> the 19th of 20, not the maximum.
    let mut twenty = estimator();
    for ms in 1..=20u64 {
        twenty.record_block_time_ms(ms);
    }
    assert_eq!(twenty.p95_block_time_ms(), Some(19));
}

#[test]
fn percentile_is_none_on_an_empty_window() {
    let est = estimator();
    assert_eq!(est.p95_block_time_ms(), None);
    assert_eq!(est.window_mean_block_time_ms(), None);
    assert_eq!(est.sample_count(), 0);
    assert!(!est.is_warm());
}

// -----------------------------------------------------------------------
// Mean, dispersion, and the two failure modes it separates
// -----------------------------------------------------------------------

#[test]
fn spiky_chain_mean_and_p95_match_hand_computed_values() {
    let est = spiky_window();
    // (90 * 2_000 + 10 * 30_000) / 100 = (180_000 + 300_000) / 100 = 4_800
    assert_eq!(est.window_mean_block_time_ms(), Some(4_800));
    // Sorted: ninety 2_000s then ten 30_000s; rank 95 lands in the spikes.
    assert_eq!(est.p95_block_time_ms(), Some(30_000));
    assert!(est.is_warm());
}

#[test]
fn dispersion_separates_a_variable_chain_from_a_uniformly_slow_one() {
    let spiky = spiky_window();
    let slow = uniformly_slow_window();

    // Both chains have a high p95; only one of them is actually variable.
    assert_eq!(spiky.p95_block_time_ms(), Some(30_000));
    assert_eq!(slow.p95_block_time_ms(), Some(26_000));

    // 30_000 * 10_000 / 4_800 = 62_500 bps (6.25x).
    assert_eq!(spiky.dispersion_bps(&config(2_000)), 62_500);
    // (34 * 24_000 + 33 * 25_000 + 33 * 26_000) / 100 = 24_990 ms mean;
    // 26_000 * 10_000 / 24_990 = 10_404 bps (1.04x).
    assert_eq!(slow.window_mean_block_time_ms(), Some(24_990));
    assert_eq!(slow.dispersion_bps(&config(25_000)), 10_404);

    // The separation is what the design reads, and it is ~6x.
    assert!(spiky.dispersion_bps(&config(2_000)) > 60_000);
    assert!(slow.dispersion_bps(&config(25_000)) < 11_000);
}

#[test]
fn dispersion_of_an_empty_window_is_unity() {
    assert_eq!(estimator().dispersion_bps(&config(2_000)), BPS_DENOMINATOR);
}

#[test]
fn a_single_outlier_moves_the_mean_by_a_bounded_one_over_n_share() {
    // 99 blocks at 2 s and one 60 s stall.
    let mut est = estimator();
    feed(&mut est, 2_000, 99);
    est.record_block_time_ms(60_000);
    // (99 * 2_000 + 60_000) / 100 = 258_000 / 100 = 2_580 ms: a single
    // outlier shifts the mean by (outlier - mean) / N and no more.
    assert_eq!(est.window_mean_block_time_ms(), Some(2_580));
    // One sample in a hundred cannot reach the 95th percentile, so the
    // tail statistic correctly reports this chain as still a 2 s chain.
    assert_eq!(est.p95_block_time_ms(), Some(2_000));
}

// -----------------------------------------------------------------------
// Window behaviour below and above capacity
// -----------------------------------------------------------------------

#[test]
fn behaviour_below_a_full_window_is_defined_at_every_count() {
    let mut est = estimator();
    for n in 1..BLOCK_TIME_WINDOW_SAMPLES {
        est.record_block_time_ms(2_000);
        assert_eq!(est.sample_count(), n);
        assert!(!est.is_warm(), "{n} samples must not report warm");
        assert_eq!(est.window_mean_block_time_ms(), Some(2_000));
        assert_eq!(est.p95_block_time_ms(), Some(2_000));
    }
    est.record_block_time_ms(2_000);
    assert_eq!(est.sample_count(), BLOCK_TIME_WINDOW_SAMPLES);
    assert!(est.is_warm());
}

#[test]
fn window_slides_and_forgets_samples_beyond_capacity() {
    let mut est = estimator();
    for ms in 1..=150u64 {
        est.record_block_time_ms(ms);
    }
    assert_eq!(est.sample_count(), BLOCK_TIME_WINDOW_SAMPLES);
    // The window now holds 51..=150: mean = (51 + 150) / 2 = 100.5 -> 100
    // by integer division of the exact sum 10_050 / 100.
    assert_eq!(est.window_mean_block_time_ms(), Some(100));
    // Rank 95 of 51..=150 is 51 + 94 = 145.
    assert_eq!(est.p95_block_time_ms(), Some(145));
}

// -----------------------------------------------------------------------
// Degenerate ingest
// -----------------------------------------------------------------------

#[test]
fn a_zero_block_time_sample_is_rejected() {
    let mut est = estimator();
    assert!(!est.record_block_time_ms(0));
    assert_eq!(est.sample_count(), 0);
    assert_eq!(est.ema_block_time_ms(), None);
}

#[test]
fn mean_never_returns_a_zero_divisor() {
    // Even with a (validation-rejected) zero-block-time config and no
    // samples, the estimate is floored at 1 ms.
    assert_eq!(estimator().mean_block_time_ms(&config(0)), 1);
}

// -----------------------------------------------------------------------
// Header-sync ingest
// -----------------------------------------------------------------------

#[test]
fn consecutive_headers_produce_one_sample_each() {
    let mut est = estimator();
    // The first header only anchors; it cannot yield an interval.
    assert!(!est.observe_header(10, 1_000));
    assert_eq!(est.sample_count(), 0);
    assert!(est.observe_header(11, 3_000));
    assert!(est.observe_header(12, 5_500));
    assert_eq!(est.sample_count(), 2);
    // Intervals 2_000 and 2_500 -> mean 2_250.
    assert_eq!(est.window_mean_block_time_ms(), Some(2_250));
}

#[test]
fn a_height_gap_costs_one_sample_and_re_anchors_without_interpolating() {
    let mut est = estimator();
    est.observe_header(10, 1_000);
    // Heights 11 and 12 were missed; the 10 -> 13 interval spans three
    // blocks and is deliberately NOT divided down into three samples,
    // because averaging it would launder away the per-block dispersion.
    assert!(!est.observe_header(13, 61_000));
    assert_eq!(est.sample_count(), 0);
    // Sampling resumes immediately from the new anchor.
    assert!(est.observe_header(14, 63_000));
    assert_eq!(est.sample_count(), 1);
    assert_eq!(est.window_mean_block_time_ms(), Some(2_000));
}

#[test]
fn non_increasing_timestamps_and_repeated_heights_produce_no_sample() {
    let mut est = estimator();
    est.observe_header(10, 5_000);
    // Same height re-observed (attestations accumulate on a cached header).
    assert!(!est.observe_header(10, 5_000));
    // Consecutive height but a stalled clock.
    assert!(!est.observe_header(11, 5_000));
    // Consecutive height but a backwards clock.
    assert!(!est.observe_header(12, 4_000));
    assert_eq!(est.sample_count(), 0);
    // The anchor advanced to height 12 despite recording nothing, so a
    // well-formed successor samples correctly.
    assert!(est.observe_header(13, 6_000));
    assert_eq!(est.window_mean_block_time_ms(), Some(2_000));
}

// -----------------------------------------------------------------------
// Fallback tiers, cold start, and recalibration
// -----------------------------------------------------------------------

#[test]
fn mean_falls_back_through_the_ema_to_the_configured_block_time() {
    let cfg = config(7_777);
    let mut est = estimator();
    // Tier 3: no samples, no EMA -> the chain's nominal configured time.
    assert_eq!(est.mean_block_time_ms(&cfg), 7_777);

    // Tier 1: any sample at all wins over the config.
    est.record_block_time_ms(2_000);
    assert_eq!(est.mean_block_time_ms(&cfg), 2_000);

    // Tier 2: window cleared but the EMA survives (post-recalibration).
    est.samples.clear();
    est.write_ptr = 0;
    assert_eq!(est.ema_block_time_ms(), Some(2_000));
    assert_eq!(est.mean_block_time_ms(&cfg), 2_000);
}

#[test]
fn cold_start_counter_increments_and_resets() {
    let mut est = estimator();
    assert_eq!(est.packets_issued(), 0);
    est.note_packet_issued();
    est.note_packet_issued();
    assert_eq!(est.packets_issued(), 2);
    est.reset_cold_start();
    assert_eq!(est.packets_issued(), 0);
}

#[test]
fn cold_start_counter_saturates_instead_of_overflowing() {
    let mut est = estimator();
    est.packets_issued = u32::MAX;
    est.note_packet_issued();
    assert_eq!(est.packets_issued(), u32::MAX);
}

#[test]
fn reseed_from_ema_replaces_the_window_with_the_current_regime() {
    let mut est = estimator();
    // A stale 2 s regime fills the window, then the chain moves to 30 s.
    feed(&mut est, 2_000, BLOCK_TIME_WINDOW_SAMPLES);
    feed(&mut est, 30_000, 20);
    let ema = est.ema_block_time_ms().unwrap();
    // The window still mostly holds the old regime; the EMA does not.
    let stale_mean = est.window_mean_block_time_ms().unwrap();
    assert!(
        stale_mean < 10_000,
        "window mean {stale_mean} should still be dominated by the old regime"
    );
    assert!(
        ema > 29_000,
        "EMA {ema} should already track the new regime"
    );

    assert_eq!(est.reseed_from_ema(), Some(ema));
    assert_eq!(est.sample_count(), 1);
    assert_eq!(est.window_mean_block_time_ms(), Some(ema));
}

#[test]
fn reseed_from_ema_is_a_no_op_when_the_ema_is_unseeded() {
    let mut est = estimator();
    assert_eq!(est.reseed_from_ema(), None);
    assert_eq!(est.sample_count(), 0);
}
