use verinode_core::cross_chain::ibc::block_time_estimator::BlockTimeEstimator;
use verinode_core::cross_chain::ibc::packet_timeout::{
    COLD_START_PACKET_COUNT, IbcTimeoutError, MAX_PACKET_LIFETIME_BLOCKS, MAX_TIMEOUT_DELTA_MS,
    MIN_TIMEOUT_DELTA_MS, block_count, compute_timeout, in_cold_start,
};
use verinode_core::cross_chain::types::{BPS_DENOMINATOR, ChainConfig};

fn config(block_time_ms: u64) -> ChainConfig {
    ChainConfig::new("dest".into(), block_time_ms, 32, 1)
}

/// An estimator whose window holds `count` samples of exactly `sample_ms`,
/// so the mean is exactly `sample_ms`.
fn estimator_at(sample_ms: u64, count: usize) -> BlockTimeEstimator {
    let mut est = BlockTimeEstimator::new("dest".into());
    for _ in 0..count {
        est.record_block_time_ms(sample_ms);
    }
    est
}

/// A spiky chain: 2 s baseline, every tenth block 30 s.
/// Window mean 4_800 ms, p95 30_000 ms.
fn spiky_estimator() -> BlockTimeEstimator {
    let mut est = BlockTimeEstimator::new("dest".into());
    for i in 0..100 {
        est.record_block_time_ms(if i % 10 == 9 { 30_000 } else { 2_000 });
    }
    est
}

// -----------------------------------------------------------------------
// The formula, against hand arithmetic
// -----------------------------------------------------------------------

#[test]
fn block_count_matches_hand_computed_arithmetic() {
    // 60_000 / 2_000 = 30 exactly.
    assert_eq!(block_count(2_000, 60_000, false), Ok(30));
    // 60_000 / 4_800 = 12.5 -> 13.
    assert_eq!(block_count(4_800, 60_000, false), Ok(13));
    // 300_000 / 4_800 = 62.5 -> 63.
    assert_eq!(block_count(4_800, 300_000, false), Ok(63));
    // 300_000 / 25_000 = 12 exactly.
    assert_eq!(block_count(25_000, 300_000, false), Ok(12));
    // 120_000 / 25_000 = 4.8 -> 5.
    assert_eq!(block_count(25_000, 120_000, false), Ok(5));
}

#[test]
fn the_literal_blueprint_formula_collapses_to_one_block_everywhere() {
    // A delta in SECONDS divided by a block time in MILLISECONDS mixes
    // units. Across the entire documented input space -- 10-300 s
    // against any block time of a second or more -- the numerator is always
    // smaller than the divisor, so ceil() pins the result at 1 block.
    for delta_secs in [10u64, 60, 120, 300] {
        for block_time_ms in [1_000u64, 2_000, 4_800, 15_000, 30_000] {
            assert_eq!(
                delta_secs.div_ceil(block_time_ms),
                1,
                "mixed units at delta={delta_secs}s, block={block_time_ms}ms"
            );
        }
    }
    // With both in milliseconds, the same inputs give the real answer.
    assert_eq!(60_000u64.div_ceil(2_000), 30);
    assert_eq!(block_count(2_000, 60_000, false), Ok(30));
}

#[test]
fn the_p95_divisor_undershoots_the_issue_scenario_by_eighty_four_percent() {
    // A spiky chain: mean 4_800 ms, p95 30_000 ms, 60 s window.
    const DELTA_MS: u64 = 60_000;
    const TRUE_MEAN_MS: u64 = 4_800;
    const P95_MS: u64 = 30_000;

    // The p95 as divisor: ceil(60_000 / 30_000) = 2 blocks.
    let p95_blocks = block_count(P95_MS, DELTA_MS, false).unwrap();
    assert_eq!(p95_blocks, 2);
    // Those 2 blocks elapse in 2 * 4_800 = 9_600 ms against a 60_000 ms
    // intent -- 16% of the requested window, an 84% under-shoot.
    let p95_elapsed = p95_blocks * TRUE_MEAN_MS;
    assert_eq!(p95_elapsed, 9_600);
    assert_eq!(p95_elapsed * 100 / DELTA_MS, 16);

    // The mean as divisor: ceil(60_000 / 4_800) = 13 blocks.
    let mean_blocks = block_count(TRUE_MEAN_MS, DELTA_MS, false).unwrap();
    assert_eq!(mean_blocks, 13);
    // 13 * 4_800 = 62_400 ms against 60_000 ms -- a 4% over-shoot.
    let mean_elapsed = mean_blocks * TRUE_MEAN_MS;
    assert_eq!(mean_elapsed, 62_400);
    assert_eq!(mean_elapsed * 100 / DELTA_MS, 104);

    // A fixed 2 s assumption: 30 blocks that actually take
    // 30 * 4_800 = 144_000 ms, a 140% over-shoot.
    let fixed_blocks = block_count(2_000, DELTA_MS, false).unwrap();
    assert_eq!(fixed_blocks * TRUE_MEAN_MS, 144_000);
}

// -----------------------------------------------------------------------
// Cold-start safety margin
// -----------------------------------------------------------------------

#[test]
fn cold_start_margin_is_a_ceiling_of_one_and_a_half_block_counts() {
    // 30 * 1.5 = 45 exactly.
    assert_eq!(block_count(2_000, 60_000, true), Ok(45));
    // 13 * 1.5 = 19.5 -> 20.
    assert_eq!(block_count(4_800, 60_000, true), Ok(20));
    // 1 * 1.5 = 1.5 -> 2: even the smallest count gains real headroom.
    assert_eq!(block_count(30_000, 30_000, true), Ok(2));
}

#[test]
fn cold_start_margin_applies_to_exactly_the_first_ten_packets() {
    let cfg = config(2_000);
    let mut est = estimator_at(2_000, 100);

    for packet in 1..=COLD_START_PACKET_COUNT {
        let estimate = compute_timeout(&mut est, &cfg, 1_000, 60_000).unwrap();
        assert!(estimate.cold_start, "packet {packet} must be cold-start");
        assert_eq!(estimate.base_block_count, 30);
        assert_eq!(estimate.block_count, 45, "packet {packet}");
        assert_eq!(estimate.timeout_height, 1_045);
    }
    assert_eq!(est.packets_issued(), COLD_START_PACKET_COUNT);

    // The eleventh packet is out of the allowance: no margin at all.
    let eleventh = compute_timeout(&mut est, &cfg, 1_000, 60_000).unwrap();
    assert!(!eleventh.cold_start);
    assert_eq!(eleventh.block_count, 30);
    assert_eq!(eleventh.timeout_height, 1_030);
}

#[test]
fn a_rejected_request_does_not_consume_the_cold_start_allowance() {
    let cfg = config(2_000);
    let mut est = estimator_at(2_000, 100);
    assert_eq!(
        compute_timeout(&mut est, &cfg, 1_000, 9_999),
        Err(IbcTimeoutError::TimeoutDeltaOutOfRange)
    );
    assert_eq!(est.packets_issued(), 0);
    assert!(in_cold_start(&est));
}

#[test]
fn an_estimator_with_no_samples_falls_back_to_config_and_is_margined() {
    let cfg = config(2_000);
    let mut est = BlockTimeEstimator::new("dest".into());
    let estimate = compute_timeout(&mut est, &cfg, 0, 60_000).unwrap();
    // Divisor came from ChainConfig::block_time_ms; the margin is exactly
    // the hedge against that configured value being wrong.
    assert_eq!(estimate.mean_block_time_ms, 2_000);
    assert_eq!(estimate.base_block_count, 30);
    assert_eq!(estimate.block_count, 45);
    assert!(estimate.cold_start);
    assert_eq!(estimate.p95_block_time_ms, None);
    assert_eq!(estimate.dispersion_bps, BPS_DENOMINATOR);
}

// -----------------------------------------------------------------------
// A uniformly slow chain is slow, not variable (Gate 0 item 4e)
// -----------------------------------------------------------------------

#[test]
fn a_uniformly_slow_chain_converges_to_an_exact_timeout_after_cold_start() {
    let cfg = config(25_000);
    // 25 s blocks with no spread whatsoever.
    let mut est = estimator_at(25_000, 100);
    assert_eq!(est.window_mean_block_time_ms(), Some(25_000));
    assert_eq!(est.p95_block_time_ms(), Some(25_000));
    // Zero dispersion: this chain is slow, not variable.
    assert_eq!(est.dispersion_bps(&cfg), BPS_DENOMINATOR);

    // Burn the cold-start allowance.
    for _ in 0..COLD_START_PACKET_COUNT {
        let margined = compute_timeout(&mut est, &cfg, 0, 300_000).unwrap();
        assert_eq!(margined.block_count, 18); // ceil(12 * 1.5)
    }

    let warm = compute_timeout(&mut est, &cfg, 0, 300_000).unwrap();
    assert!(!warm.cold_start);
    // ceil(300_000 / 25_000) = 12 blocks, which elapse in exactly
    // 12 * 25_000 = 300_000 ms -- the requested window, to the millisecond.
    assert_eq!(warm.block_count, 12);
    assert_eq!(warm.block_count * 25_000, 300_000);
    // And emphatically not the inflated cold-start value: a consistently
    // slow chain must not be treated as a variable one forever.
    assert_ne!(warm.block_count, 18);
}

#[test]
fn a_slow_chain_cannot_express_a_window_shorter_than_one_block() {
    // A 10 s deadline on a 25 s-block chain is not a height that exists.
    assert_eq!(
        block_count(25_000, 10_000, false),
        Err(IbcTimeoutError::DeltaBelowBlockGranularity)
    );
    // The boundary is delta == one block, either side of it:
    // a window of exactly one block is expressible...
    assert_eq!(block_count(10_000, 10_000, false), Ok(1));
    // ...one millisecond short of a block is not...
    assert_eq!(
        block_count(10_001, 10_000, false),
        Err(IbcTimeoutError::DeltaBelowBlockGranularity)
    );
    // ...and one millisecond over a block rounds up to two.
    assert_eq!(block_count(10_000, 10_001, false), Ok(2));
}

// -----------------------------------------------------------------------
// Bounds
// -----------------------------------------------------------------------

#[test]
fn timeout_delta_bounds_are_inclusive_and_rejected_outside() {
    assert_eq!(
        block_count(2_000, MIN_TIMEOUT_DELTA_MS - 1, false),
        Err(IbcTimeoutError::TimeoutDeltaOutOfRange)
    );
    assert_eq!(block_count(2_000, MIN_TIMEOUT_DELTA_MS, false), Ok(5));
    assert_eq!(block_count(2_000, MAX_TIMEOUT_DELTA_MS, false), Ok(150));
    assert_eq!(
        block_count(2_000, MAX_TIMEOUT_DELTA_MS + 1, false),
        Err(IbcTimeoutError::TimeoutDeltaOutOfRange)
    );
    assert_eq!(
        block_count(2_000, 0, false),
        Err(IbcTimeoutError::TimeoutDeltaOutOfRange)
    );
}

#[test]
fn packet_lifetime_cap_is_enforced_at_exactly_one_thousand_blocks() {
    // 300_000 / 300 = 1_000 exactly -- the boundary is allowed.
    assert_eq!(
        block_count(300, MAX_TIMEOUT_DELTA_MS, false),
        Ok(MAX_PACKET_LIFETIME_BLOCKS)
    );
    // 300_000 / 299 = 1_003.3 -> 1_004, one over the bound.
    assert_eq!(
        block_count(299, MAX_TIMEOUT_DELTA_MS, false),
        Err(IbcTimeoutError::PacketLifetimeExceeded)
    );
}

#[test]
fn the_lifetime_cap_is_applied_after_the_cold_start_margin() {
    // 300_000 / 429 = 699.3 -> 700 blocks, comfortably under the cap...
    assert_eq!(block_count(429, MAX_TIMEOUT_DELTA_MS, false), Ok(700));
    // ...but 700 * 1.5 = 1_050 is over it, and the margined count is what
    // actually lands on the wire, so it must be the one that is checked.
    assert_eq!(
        block_count(429, MAX_TIMEOUT_DELTA_MS, true),
        Err(IbcTimeoutError::PacketLifetimeExceeded)
    );
}

#[test]
fn a_zero_block_time_estimate_never_divides_by_zero() {
    // The estimator already floors its estimate at 1 ms, but `block_count`
    // is public and floors the divisor again so a direct call cannot
    // panic. A 1 ms divisor yields an absurd 10_000-block count, which the
    // lifetime cap then rejects -- an error, never a division by zero.
    assert_eq!(
        block_count(0, 10_000, false),
        Err(IbcTimeoutError::PacketLifetimeExceeded)
    );
}

// -----------------------------------------------------------------------
// Height arithmetic and reported state
// -----------------------------------------------------------------------

#[test]
fn timeout_height_advances_from_the_reference_height_and_saturates() {
    let cfg = config(2_000);
    let mut est = estimator_at(2_000, 100);
    est.reset_cold_start();
    for _ in 0..COLD_START_PACKET_COUNT {
        est.note_packet_issued();
    }

    let estimate = compute_timeout(&mut est, &cfg, 1_000_000, 60_000).unwrap();
    assert_eq!(estimate.reference_height, 1_000_000);
    assert_eq!(estimate.timeout_height, 1_000_030);

    // A pathological reference height saturates rather than wrapping to a
    // height in the past, which would time the packet out immediately.
    let saturated = compute_timeout(&mut est, &cfg, u64::MAX, 60_000).unwrap();
    assert_eq!(saturated.timeout_height, u64::MAX);
}

#[test]
fn the_estimate_carries_the_estimator_state_that_produced_it() {
    let cfg = config(2_000);
    let mut est = spiky_estimator();
    let estimate = compute_timeout(&mut est, &cfg, 500, 60_000).unwrap();
    assert_eq!(estimate.mean_block_time_ms, 4_800);
    assert_eq!(estimate.p95_block_time_ms, Some(30_000));
    assert_eq!(estimate.dispersion_bps, 62_500);
    assert_eq!(estimate.base_block_count, 13);
    assert_eq!(estimate.block_count, 20); // cold start: ceil(13 * 1.5)
    assert_eq!(estimate.timeout_height, 520);
}
