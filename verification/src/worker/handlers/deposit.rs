//! The deposit handler: credits `available` and records the transaction.

use vstd::prelude::*;
use crate::common::error::AppError;
use crate::common::money::Money;
use crate::domain::account::Account;
use crate::domain::ledger::{Ledger, LedgerModel};
use crate::domain::transaction::{TransactionRecord, TxStatus, TxType};

verus! {

broadcast use vstd::std_specs::hash::group_hash_axioms;

/// The ledger after a deposit event.
///
/// A locked account or an already-present transaction id makes the event a
/// no-op (beyond lazily creating the account).  Otherwise `available` grows
/// by `amount` and a fresh `Normal` deposit record is inserted.
pub open spec fn spec_deposit(m: LedgerModel, client: u16, tx: u32, amount: Money) -> LedgerModel {
    let m1 = m.ensure_account(client);
    if !m.admits_new_tx(client, tx) {
        m1
    } else {
        let a = m1.accounts[client];
        let credited = Account { available: Money((a.available@ + amount@) as i64), ..a };
        LedgerModel {
            accounts: m1.accounts.insert(client, credited),
            txs: m1.txs.insert(
                tx,
                TransactionRecord {
                    tx_id: tx,
                    client,
                    amount,
                    tx_type: TxType::Deposit,
                    tx_status: TxStatus::Normal,
                },
            ),
        }
    }
}

/// Crediting this deposit stays within the machine integer range.
pub open spec fn deposit_fits(m: LedgerModel, client: u16, tx: u32, amount: Money) -> bool {
    m.admits_new_tx(client, tx) ==> m.account(client).available@ + amount@ <= i64::MAX
}

/// Applies a deposit event to the ledger.
///
/// Never fails: a locked account or a duplicate transaction id is silently
/// ignored, and on that path the transaction table is left untouched.
pub fn handle(ledger: &mut Ledger, client: u16, tx: u32, amount: Money) -> (r: Result<
    (),
    AppError,
>)
    requires
        amount@ >= 0,
        deposit_fits(old(ledger)@, client, tx, amount),
    ensures
        r is Ok,
        final(ledger)@ == spec_deposit(old(ledger)@, client, tx, amount),
{
    let acc = ledger.get_or_create_account(client);
    if acc.is_locked() {
        return Ok(());
    }
    if ledger.txs.contains_key(&tx) {
        return Ok(());
    }
    let credited = Account { available: acc.available + amount, ..acc };
    ledger.accounts.insert(client, credited);
    ledger.txs.insert(
        tx,
        TransactionRecord {
            tx_id: tx,
            client,
            amount,
            tx_type: TxType::Deposit,
            tx_status: TxStatus::Normal,
        },
    );
    proof {
        assert(ledger@ =~= spec_deposit(old(ledger)@, client, tx, amount));
    }
    Ok(())
}

} // verus!
