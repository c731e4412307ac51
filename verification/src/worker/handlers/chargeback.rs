//! The chargeback handler: withdraws the funds of a disputed deposit and
//! permanently locks the account.

use vstd::prelude::*;
use crate::common::error::AppError;
use crate::common::money::Money;
use crate::domain::account::Account;
use crate::domain::ledger::{Ledger, LedgerModel};
use crate::domain::transaction::{TransactionRecord, TxStatus, TxType};

verus! {

broadcast use vstd::std_specs::hash::group_hash_axioms;

/// Whether a chargeback for `tx` raised by `client` reaches the balance
/// step: the account is unlocked and `tx` names a `Disputed` deposit owned
/// by that client.
pub open spec fn chargeback_applies(m: LedgerModel, client: u16, tx: u32) -> bool {
    &&& !m.account(client).locked
    &&& m.txs.contains_key(tx)
    &&& m.txs[tx].client == client
    &&& m.txs[tx].tx_status == TxStatus::Disputed
    &&& m.txs[tx].tx_type == TxType::Deposit
}

/// The ledger after a chargeback event.
///
/// When the chargeback applies and `held` covers the amount, `held` shrinks
/// by the amount, the account is locked for good, and the record becomes
/// `ChargedBack`.  A short `held` balance is defensively left untouched and
/// the account is not locked.
pub open spec fn spec_chargeback(m: LedgerModel, client: u16, tx: u32) -> LedgerModel {
    let m1 = m.ensure_account(client);
    if !chargeback_applies(m, client, tx) {
        m1
    } else {
        let a = m1.accounts[client];
        let amt = m1.txs[tx].amount;
        if a.held@ >= amt@ {
            LedgerModel {
                accounts: m1.accounts.insert(
                    client,
                    Account { held: Money((a.held@ - amt@) as i64), locked: true, ..a },
                ),
                txs: m1.txs.insert(
                    tx,
                    TransactionRecord { tx_status: TxStatus::ChargedBack, ..m1.txs[tx] },
                ),
            }
        } else {
            m1
        }
    }
}

/// Withdrawing the charged-back amount stays within the machine integer
/// range.
pub open spec fn chargeback_fits(m: LedgerModel, client: u16, tx: u32) -> bool {
    chargeback_applies(m, client, tx) && m.account(client).held@ >= m.txs[tx].amount@
        ==> i64::MIN <= m.account(client).held@ - m.txs[tx].amount@ <= i64::MAX
}

/// Applies a chargeback event to the ledger.
///
/// Never fails: anything but an unlocked account with a matching `Disputed`
/// deposit and sufficient held funds is silently ignored.
pub fn handle(ledger: &mut Ledger, client: u16, tx: u32) -> (r: Result<(), AppError>)
    requires
        chargeback_fits(old(ledger)@, client, tx),
    ensures
        r is Ok,
        final(ledger)@ == spec_chargeback(old(ledger)@, client, tx),
{
    let acc = ledger.get_or_create_account(client);
    if acc.is_locked() {
        return Ok(());
    }
    let rec = match ledger.txs.get(&tx) {
        Some(t) => *t,
        None => {
            return Ok(());
        },
    };
    if rec.client != client {
        return Ok(());
    }
    if rec.tx_status != TxStatus::Disputed {
        return Ok(());
    }
    if rec.tx_type != TxType::Deposit {
        return Ok(());
    }
    if acc.held >= rec.amount {
        let updated = Account { held: acc.held - rec.amount, locked: true, ..acc };
        ledger.accounts.insert(client, updated);
        let mut charged = rec;
        charged.set_status(TxStatus::ChargedBack);
        ledger.txs.insert(tx, charged);
    }
    proof {
        assert(ledger@ =~= spec_chargeback(old(ledger)@, client, tx));
    }
    Ok(())
}

} // verus!
