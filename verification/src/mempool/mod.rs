//! Transactions and blocks as far as fees are concerned.

use vstd::prelude::*;

verus! {

/// A 32-byte transaction hash.
pub type TxHash = [u8; 32];

/// An amount of fees.
pub type FeeAmount = u64;

/// A transaction with its base fee and tip kept apart.
#[derive(Clone, Copy, Debug, PartialEq, Eq)]
pub struct Transaction {
    hash: TxHash,
    base_fee: FeeAmount,
    tip: FeeAmount,
    gas: u64,
}

/// What a transaction says.
pub struct TransactionModel {
    pub hash: TxHash,
    pub base_fee: FeeAmount,
    pub tip: FeeAmount,
    pub gas: u64,
}

/// Errors building a transaction.
#[derive(Clone, Copy, Debug, PartialEq, Eq)]
pub enum TransactionError {
    /// Base fee and tip together do not fit a [`FeeAmount`].
    FeeOverflow,
}

/// A block as it was built from the pool.
#[derive(Clone, Debug, PartialEq, Eq)]
pub struct BuiltBlock {
    /// The transactions of the block, in their order.
    pub transactions: Vec<Transaction>,
    /// Gas used by all of them.
    pub gas_used: u64,
}

impl View for Transaction {
    type V = TransactionModel;

    closed spec fn view(&self) -> TransactionModel {
        TransactionModel {
            hash: self.hash,
            base_fee: self.base_fee,
            tip: self.tip,
            gas: self.gas,
        }
    }
}

impl Transaction {
    /// Base fee and tip together fit a [`FeeAmount`].
    pub open spec fn wf(&self) -> bool {
        self@.base_fee + self@.tip <= u64::MAX
    }

    /// A transaction, if its base fee and tip together fit a [`FeeAmount`].
    pub fn new(hash: TxHash, base_fee: FeeAmount, tip: FeeAmount, gas: u64) -> (r: Result<
        Self,
        TransactionError,
    >)
        ensures
            r is Ok <==> base_fee + tip <= u64::MAX,
            r matches Ok(tx) ==> tx.wf() && tx@ == (TransactionModel { hash, base_fee, tip, gas }),
            r matches Err(e) ==> e == TransactionError::FeeOverflow,
    {
        match base_fee.checked_add(tip) {
            Some(_) => Ok(Transaction { hash, base_fee, tip, gas }),
            None => Err(TransactionError::FeeOverflow),
        }
    }

    /// The part of the fee that is burned.
    pub fn base_fee(&self) -> (r: FeeAmount)
        ensures
            r == self@.base_fee,
    {
        self.base_fee
    }

    /// The part of the fee that the proposer receives.
    pub fn tip(&self) -> (r: FeeAmount)
        ensures
            r == self@.tip,
    {
        self.tip
    }

    /// The whole fee.
    pub fn priority_fee(&self) -> (r: FeeAmount)
        requires
            self.wf(),
        ensures
            r == self@.base_fee + self@.tip,
    {
        self.base_fee + self.tip
    }
}

} // verus!
