//! Transaction events, the input language of the ledger.

use vstd::prelude::*;
use crate::common::money::Money;

verus! {

/// One validated transaction event, handed by the reader to the processor.
///
/// `client` is a 16-bit client id, `tx` a globally unique 32-bit transaction
/// id.  Only deposits and withdrawals carry an amount; the other three kinds
/// reference an earlier deposit or withdrawal by its id.
#[derive(Clone, Copy, Debug, PartialEq, Eq, Structural)]
pub enum TransactionEvent {
    Deposit { client: u16, tx: u32, amount: Money },
    Withdrawal { client: u16, tx: u32, amount: Money },
    Dispute { client: u16, tx: u32 },
    Resolve { client: u16, tx: u32 },
    Chargeback { client: u16, tx: u32 },
}

impl TransactionEvent {
    /// The client id the event addresses.
    pub open spec fn spec_client(self) -> u16 {
        match self {
            TransactionEvent::Deposit { client, .. } => client,
            TransactionEvent::Withdrawal { client, .. } => client,
            TransactionEvent::Dispute { client, .. } => client,
            TransactionEvent::Resolve { client, .. } => client,
            TransactionEvent::Chargeback { client, .. } => client,
        }
    }
}

} // verus!
