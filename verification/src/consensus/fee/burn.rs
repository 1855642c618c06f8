//! Fee burn / tip split for finalized blocks.
//!
//! On block finalization, each transaction's `base_fee` is burned and its `tip` is paid to the
//! block proposer.

use vstd::prelude::*;

use crate::mempool::{BuiltBlock, FeeAmount, Transaction, TransactionModel};

verus! {

/// Opaque block-proposer / fee-recipient identifier.
pub type AccountId = u64;

/// The burn/tip split for a single transaction.
#[derive(Clone, Copy, Debug, PartialEq, Eq)]
pub struct FeeSplit {
    pub burned: FeeAmount,
    pub tipped: FeeAmount,
}

/// Errors aggregating fees across a block.
#[derive(Clone, Copy, Debug, PartialEq, Eq)]
pub enum FeeBurnError {
    /// Summing burned or tipped amounts across the block overflowed [`FeeAmount`].
    TotalOverflow,
}

/// Aggregate burn/tip totals for a finalized block.
#[derive(Clone, Copy, Debug, PartialEq, Eq)]
pub struct FinalizedBlockFees {
    pub proposer: AccountId,
    pub total_burned: FeeAmount,
    pub total_tipped: FeeAmount,
}

/// The split of a transaction's fee.
pub open spec fn fee_split(tx: TransactionModel) -> FeeSplit {
    FeeSplit { burned: tx.base_fee, tipped: tx.tip }
}

/// The sum of the base fees of some transactions.
pub open spec fn burned_total(txs: Seq<Transaction>) -> nat
    decreases txs.len(),
{
    if txs.len() == 0 {
        0
    } else {
        burned_total(txs.drop_last()) + fee_split(txs.last()@).burned as nat
    }
}

/// The sum of the tips of some transactions.
pub open spec fn tipped_total(txs: Seq<Transaction>) -> nat
    decreases txs.len(),
{
    if txs.len() == 0 {
        0
    } else {
        tipped_total(txs.drop_last()) + fee_split(txs.last()@).tipped as nat
    }
}

/// The sum of the whole fees of some transactions.
pub open spec fn fee_total(txs: Seq<Transaction>) -> nat
    decreases txs.len(),
{
    if txs.len() == 0 {
        0
    } else {
        fee_total(txs.drop_last()) + (txs.last()@.base_fee + txs.last()@.tip) as nat
    }
}

/// What the fees of a block come to.
pub open spec fn block_fees(txs: Seq<Transaction>, proposer: AccountId) -> Result<
    FinalizedBlockFees,
    FeeBurnError,
> {
    if burned_total(txs) <= u64::MAX && tipped_total(txs) <= u64::MAX {
        Ok(
            FinalizedBlockFees {
                proposer,
                total_burned: burned_total(txs) as u64,
                total_tipped: tipped_total(txs) as u64,
            },
        )
    } else {
        Err(FeeBurnError::TotalOverflow)
    }
}

/// Nothing of a transaction's fee is lost in the split.
pub proof fn law_split_conserves_value(tx: TransactionModel)
    ensures
        fee_split(tx).burned + fee_split(tx).tipped == tx.base_fee + tx.tip,
{
}

/// Over a block, what is burned and what is tipped add up to the fees.
pub proof fn law_block_fees_conserve_value(txs: Seq<Transaction>)
    ensures
        burned_total(txs) + tipped_total(txs) == fee_total(txs),
    decreases txs.len(),
{
    if txs.len() > 0 {
        law_block_fees_conserve_value(txs.drop_last());
    }
}

proof fn lemma_totals_grow(txs: Seq<Transaction>, k: int)
    requires
        0 <= k <= txs.len(),
    ensures
        burned_total(txs.take(k)) <= burned_total(txs),
        tipped_total(txs.take(k)) <= tipped_total(txs),
    decreases txs.len(),
{
    if k < txs.len() {
        lemma_totals_grow(txs.drop_last(), k);
        assert(txs.drop_last().take(k) =~= txs.take(k));
    } else {
        assert(txs.take(k) =~= txs);
    }
}

/// Split a transaction's fee: `base_fee` is burned, `tip` is paid to the block proposer.
///
/// No division occurs in this split, so there is no rounding remainder to account for.
pub fn split_fee(tx: &Transaction) -> (r: FeeSplit)
    ensures
        r == fee_split(tx@),
{
    FeeSplit { burned: tx.base_fee(), tipped: tx.tip() }
}

/// Compute the aggregate burn/tip totals for every transaction in `block`.
pub fn finalize_block_fees(block: &BuiltBlock, proposer: AccountId) -> (r: Result<
    FinalizedBlockFees,
    FeeBurnError,
>)
    ensures
        r == block_fees(block.transactions@, proposer),
{
    let mut total_burned: FeeAmount = 0;
    let mut total_tipped: FeeAmount = 0;
    let ghost txs = block.transactions@;
    let mut i: usize = 0;
    while i < block.transactions.len()
        invariant
            txs == block.transactions@,
            i <= txs.len(),
            total_burned == burned_total(txs.take(i as int)),
            total_tipped == tipped_total(txs.take(i as int)),
        decreases txs.len() - i,
    {
        let split: FeeSplit = split_fee(&block.transactions[i]);
        proof {
            assert(txs.take(i + 1).drop_last() =~= txs.take(i as int));
            assert(txs.take(i + 1).last() == txs[i as int]);
            lemma_totals_grow(txs, i + 1);
        }
        match total_burned.checked_add(split.burned) {
            Some(sum) => {
                total_burned = sum;
            },
            None => {
                return Err(FeeBurnError::TotalOverflow);
            },
        }
        match total_tipped.checked_add(split.tipped) {
            Some(sum) => {
                total_tipped = sum;
            },
            None => {
                return Err(FeeBurnError::TotalOverflow);
            },
        }
        i = i + 1;
    }
    assert(txs.take(txs.len() as int) =~= txs);
    Ok(FinalizedBlockFees { proposer, total_burned, total_tipped })
}

/// Of each transaction the base fee is burned and the tip is paid out.
pub proof fn law_base_fee_is_burned(tx: TransactionModel)
    ensures
        fee_split(tx).burned == tx.base_fee,
        fee_split(tx).tipped == tx.tip,
{
}

/// An empty block burns and pays nothing; one more transaction adds its base fee to what is burned
/// and its tip to what the proposer gets, unless one of the two no longer fits.
pub proof fn law_block_fees_take_in_a_transaction(
    txs: Seq<Transaction>,
    tx: Transaction,
    proposer: AccountId,
)
    ensures
        block_fees(Seq::<Transaction>::empty(), proposer) == Ok::<_, FeeBurnError>(
            FinalizedBlockFees { proposer, total_burned: 0, total_tipped: 0 },
        ),
        block_fees(txs, proposer) is Err ==> block_fees(txs.push(tx), proposer) is Err,
        block_fees(txs, proposer) matches Ok(before) ==> {
            let burned = before.total_burned + tx@.base_fee;
            let tipped = before.total_tipped + tx@.tip;
            &&& before.proposer == proposer
            &&& block_fees(txs.push(tx), proposer) is Ok <==> burned <= u64::MAX && tipped
                <= u64::MAX
            &&& block_fees(txs.push(tx), proposer) matches Ok(after) ==> after.proposer == proposer
                && after.total_burned == burned && after.total_tipped == tipped
        },
{
    assert(txs.push(tx).drop_last() =~= txs);
}

} // verus!
