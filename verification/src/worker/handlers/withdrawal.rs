//! The withdrawal handler: debits `available` when funds suffice, and
//! records the transaction either way.

use vstd::prelude::*;
use crate::common::error::AppError;
use crate::common::money::Money;
use crate::domain::account::Account;
use crate::domain::ledger::{Ledger, LedgerModel};
use crate::domain::transaction::{TransactionRecord, TxStatus, TxType};

verus! {

broadcast use vstd::std_specs::hash::group_hash_axioms;

/// The ledger after a withdrawal event.
///
/// A locked account or an already-present transaction id makes the event a
/// no-op (beyond lazily creating the account).  Otherwise `available`
/// shrinks by `amount` when it covers it — and stays put when it does not —
/// and a `Normal` withdrawal record with the *requested* amount is inserted
/// in both cases, purely for the audit trail.
pub open spec fn spec_withdrawal(m: LedgerModel, client: u16, tx: u32, amount: Money) -> LedgerModel {
    let m1 = m.ensure_account(client);
    if !m.admits_new_tx(client, tx) {
        m1
    } else {
        let a = m1.accounts[client];
        let debited = if a.available@ >= amount@ {
            Account { available: Money((a.available@ - amount@) as i64), ..a }
        } else {
            a
        };
        LedgerModel {
            accounts: m1.accounts.insert(client, debited),
            txs: m1.txs.insert(
                tx,
                TransactionRecord {
                    tx_id: tx,
                    client,
                    amount,
                    tx_type: TxType::Withdrawal,
                    tx_status: TxStatus::Normal,
                },
            ),
        }
    }
}

/// Applies a withdrawal event to the ledger.
///
/// Never fails: a locked account or a duplicate transaction id is silently
/// ignored, and insufficient funds leave the balances untouched while the
/// record is still inserted.
pub fn handle(ledger: &mut Ledger, client: u16, tx: u32, amount: Money) -> (r: Result<
    (),
    AppError,
>)
    requires
        amount@ >= 0,
    ensures
        r is Ok,
        final(ledger)@ == spec_withdrawal(old(ledger)@, client, tx, amount),
{
    let acc = ledger.get_or_create_account(client);
    if acc.is_locked() {
        return Ok(());
    }
    if ledger.txs.contains_key(&tx) {
        return Ok(());
    }
    if acc.available >= amount {
        let debited = Account { available: acc.available - amount, ..acc };
        ledger.accounts.insert(client, debited);
    }
    ledger.txs.insert(
        tx,
        TransactionRecord {
            tx_id: tx,
            client,
            amount,
            tx_type: TxType::Withdrawal,
            tx_status: TxStatus::Normal,
        },
    );
    proof {
        assert(ledger@ =~= spec_withdrawal(old(ledger)@, client, tx, amount));
    }
    Ok(())
}

} // verus!
