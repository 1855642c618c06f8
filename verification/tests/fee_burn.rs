use verinode_core::consensus::fee::burn::{FeeBurnError, finalize_block_fees, split_fee};
use verinode_core::mempool::{BuiltBlock, Transaction, TxHash};

fn hash(id: u8) -> TxHash {
    let mut h = [0u8; 32];
    h[31] = id;
    h
}

fn tx(id: u8, base_fee: u64, tip: u64) -> Transaction {
    Transaction::new(hash(id), base_fee, tip, 1).unwrap()
}

#[test]
fn split_conserves_value_for_simple_values() {
    let t = tx(1, 100, 50);
    let split = split_fee(&t);
    assert_eq!(split.burned, 100);
    assert_eq!(split.tipped, 50);
    assert_eq!(split.burned + split.tipped, t.priority_fee());
}

#[test]
fn split_conserves_value_for_adversarial_values() {
    // fee = 1 (minimum nonzero), odd tip, and near-max values.
    for (base_fee, tip) in [
        (1u64, 0u64),
        (0, 1),
        (1, 1),
        (3, 7),
        (u64::MAX / 2, u64::MAX / 2),
        (u64::MAX - 1, 1),
    ] {
        let t = tx(1, base_fee, tip);
        let split = split_fee(&t);
        assert_eq!(
            split.burned + split.tipped,
            t.priority_fee(),
            "conservation violated for base_fee={base_fee}, tip={tip}"
        );
        assert_eq!(split.burned, base_fee);
        assert_eq!(split.tipped, tip);
    }
}

#[test]
fn finalize_block_fees_sums_and_conserves_across_block() {
    let block = BuiltBlock {
        transactions: vec![tx(1, 100, 10), tx(2, 200, 20), tx(3, 1, 0)],
        gas_used: 3,
    };
    let fees = finalize_block_fees(&block, 42).unwrap();
    assert_eq!(fees.proposer, 42);
    assert_eq!(fees.total_burned, 301);
    assert_eq!(fees.total_tipped, 30);
    assert_eq!(
        fees.total_burned + fees.total_tipped,
        block
            .transactions
            .iter()
            .map(|t| t.priority_fee())
            .sum::<u64>()
    );
}

#[test]
fn finalize_block_fees_empty_block_is_zero() {
    let block = BuiltBlock {
        transactions: vec![],
        gas_used: 0,
    };
    let fees = finalize_block_fees(&block, 1).unwrap();
    assert_eq!(fees.total_burned, 0);
    assert_eq!(fees.total_tipped, 0);
}

#[test]
fn finalize_block_fees_detects_total_overflow() {
    let block = BuiltBlock {
        transactions: vec![tx(1, u64::MAX, 0), tx(2, u64::MAX, 0)],
        gas_used: 2,
    };
    assert_eq!(
        finalize_block_fees(&block, 1),
        Err(FeeBurnError::TotalOverflow)
    );
}
