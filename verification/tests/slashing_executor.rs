use verinode_core::consensus::slashing::detector::OffenseType;
use verinode_core::consensus::slashing::executor::{ExecutorError, SlashingExecutor};
use verinode_core::consensus::view_change::types::PublicKey;

fn pk(id: u8) -> PublicKey {
    let mut k = [0u8; 32];
    k[31] = id;
    k
}

/// 32 ETH expressed in Gwei.
const STAKE_32_ETH: u64 = 32_000_000_000;

fn executor_with_validator(validator_id: PublicKey, stake: u64) -> SlashingExecutor {
    let mut exec = SlashingExecutor::empty();
    exec.registry_mut().register(validator_id, stake);
    exec
}

// ── compute_slash_amount ──────────────────────────────────────────────────

#[test]
fn equivocation_slashes_full_stake() {
    let amount = SlashingExecutor::compute_slash_amount(
        OffenseType::Equivocation,
        STAKE_32_ETH,
        0,
    );
    assert_eq!(amount, STAKE_32_ETH);
}

#[test]
fn unavailability_scales_per_miss() {
    // 100 misses × 0.1 % = 10 % (exactly at cap)
    let amount = SlashingExecutor::compute_slash_amount(
        OffenseType::Unavailability,
        STAKE_32_ETH,
        100,
    );
    let expected_cap = STAKE_32_ETH / 10;
    assert_eq!(amount, expected_cap);
}

#[test]
fn unavailability_below_cap() {
    // 50 misses × 0.1 % = 5 % < 10 % cap
    let amount = SlashingExecutor::compute_slash_amount(
        OffenseType::Unavailability,
        STAKE_32_ETH,
        50,
    );
    let expected = STAKE_32_ETH as u128 * 50 / 1_000;
    assert_eq!(amount, expected as u64);
}

#[test]
fn unavailability_above_100_misses_capped_at_10_percent() {
    // 200 misses would be 20 %, but it's capped at 10 %.
    let amount = SlashingExecutor::compute_slash_amount(
        OffenseType::Unavailability,
        STAKE_32_ETH,
        200,
    );
    let cap = STAKE_32_ETH / 10;
    assert_eq!(amount, cap);
}

#[test]
fn invalid_proposal_slashes_two_percent() {
    let amount = SlashingExecutor::compute_slash_amount(
        OffenseType::InvalidProposal,
        STAKE_32_ETH,
        0,
    );
    let expected = STAKE_32_ETH as u128 * 2 / 100;
    assert_eq!(amount, expected as u64);
}

// ── execute ───────────────────────────────────────────────────────────────

#[test]
fn execute_equivocation_burns_half_distributes_half() {
    let mut exec = executor_with_validator(pk(1), STAKE_32_ETH);
    let actives = vec![pk(2), pk(3), pk(4)];
    let result = exec
        .execute(pk(1), OffenseType::Equivocation, 0, &actives)
        .unwrap();

    assert_eq!(result.total_slashed, STAKE_32_ETH);
    // 50 % burned
    assert_eq!(result.burned, STAKE_32_ETH / 2);
    // 50 % distributed
    assert_eq!(result.distributed, STAKE_32_ETH / 2);
    // 3 active validators
    assert_eq!(
        result.reward_per_active_validator,
        (STAKE_32_ETH / 2) / 3
    );
    // Validator stake is zero after equivocation
    assert_eq!(result.remaining_stake, 0);
}

#[test]
fn execute_unavailability_correct_amounts() {
    let stake = STAKE_32_ETH;
    let mut exec = executor_with_validator(pk(1), stake);
    let actives = vec![pk(2)];
    // 50 misses → 5 % of stake
    let result = exec
        .execute(pk(1), OffenseType::Unavailability, 50, &actives)
        .unwrap();

    let expected_slash = (stake as u128 * 50 / 1_000) as u64;
    assert_eq!(result.total_slashed, expected_slash);
    assert_eq!(result.burned, expected_slash / 2);
    assert_eq!(result.distributed, expected_slash - expected_slash / 2);
    assert_eq!(result.remaining_stake, stake - expected_slash);
}

#[test]
fn execute_invalid_proposal_correct_amounts() {
    let stake = STAKE_32_ETH;
    let mut exec = executor_with_validator(pk(1), stake);
    let actives: Vec<PublicKey> = vec![];
    let result = exec
        .execute(pk(1), OffenseType::InvalidProposal, 0, &actives)
        .unwrap();

    let expected = (stake as u128 * 2 / 100) as u64;
    assert_eq!(result.total_slashed, expected);
    // No active validators → reward_per is 0
    assert_eq!(result.reward_per_active_validator, 0);
}

#[test]
fn execute_idempotency_guard_rejects_double_slash() {
    let mut exec = executor_with_validator(pk(1), STAKE_32_ETH);
    exec.execute(pk(1), OffenseType::Equivocation, 0, &[])
        .unwrap();

    let err = exec
        .execute(pk(1), OffenseType::Equivocation, 0, &[])
        .unwrap_err();
    assert_eq!(err, ExecutorError::AlreadySlashed);
}

#[test]
fn execute_validator_not_found_returns_error() {
    let mut exec = SlashingExecutor::empty();
    let err = exec
        .execute(pk(255), OffenseType::Equivocation, 0, &[])
        .unwrap_err();
    assert_eq!(err, ExecutorError::ValidatorNotFound);
}

#[test]
fn no_active_validators_distributed_is_zero_per_validator() {
    let mut exec = executor_with_validator(pk(1), STAKE_32_ETH);
    let result = exec
        .execute(pk(1), OffenseType::Equivocation, 0, &[])
        .unwrap();
    assert_eq!(result.reward_per_active_validator, 0);
    // Distributed amount still reflects the 50 % share; it is simply
    // not rewardable (could be burned by the caller).
    assert_eq!(result.distributed, STAKE_32_ETH / 2);
}
