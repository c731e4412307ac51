//! Durable records of deposits and withdrawals.

use vstd::prelude::*;
use crate::common::money::Money;

verus! {

/// The record kept for every applied deposit or withdrawal.
///
/// Dispute, resolve and chargeback events never create records; they mutate
/// the `tx_status` of an existing one.  A record is never deleted.
#[derive(Clone, Copy, Debug, PartialEq, Eq, Structural)]
pub struct TransactionRecord {
    pub tx_id: u32,
    pub client: u16,
    pub amount: Money,
    pub tx_type: TxType,
    pub tx_status: TxStatus,
}

/// Which kind of transaction a record describes.
#[derive(Clone, Copy, Debug, PartialEq, Eq, Structural)]
pub enum TxType {
    Deposit,
    Withdrawal,
}

/// Where a record stands in the dispute lifecycle.
#[derive(Clone, Copy, Debug, PartialEq, Eq, Structural)]
pub enum TxStatus {
    Normal,
    Disputed,
    Resolved,
    ChargedBack,
}

impl TransactionRecord {
    pub fn new(tx_id: u32, client: u16, amount: Money, tx_type: TxType, tx_status: TxStatus) -> (r:
        Self)
        ensures
            r == (TransactionRecord { tx_id, client, amount, tx_type, tx_status }),
    {
        Self { tx_id, client, amount, tx_type, tx_status }
    }

    pub fn set_status(&mut self, status: TxStatus)
        ensures
            *final(self) == (TransactionRecord { tx_status: status, ..*old(self) }),
    {
        self.tx_status = status;
    }
}

} // verus!
