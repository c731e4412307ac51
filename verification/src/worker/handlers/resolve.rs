//! The resolve handler: releases the funds of a disputed deposit back to
//! `available`.

use vstd::prelude::*;
use crate::common::error::AppError;
use crate::common::money::Money;
use crate::domain::account::Account;
use crate::domain::ledger::{Ledger, LedgerModel};
use crate::domain::transaction::{TransactionRecord, TxStatus, TxType};

verus! {

broadcast use vstd::std_specs::hash::group_hash_axioms;

/// Whether a resolve for `tx` raised by `client` reaches the balance step:
/// the account is unlocked and `tx` names a `Disputed` deposit owned by
/// that client.
pub open spec fn resolve_applies(m: LedgerModel, client: u16, tx: u32) -> bool {
    &&& !m.account(client).locked
    &&& m.txs.contains_key(tx)
    &&& m.txs[tx].client == client
    &&& m.txs[tx].tx_status == TxStatus::Disputed
    &&& m.txs[tx].tx_type == TxType::Deposit
}

/// The ledger after a resolve event.
///
/// When the resolve applies and `held` covers the amount, the amount moves
/// back from `held` to `available` and the record becomes `Resolved`.  A
/// short `held` balance (which correct dispute bookkeeping never produces)
/// is defensively left untouched, record still `Disputed`.
pub open spec fn spec_resolve(m: LedgerModel, client: u16, tx: u32) -> LedgerModel {
    let m1 = m.ensure_account(client);
    if !resolve_applies(m, client, tx) {
        m1
    } else {
        let a = m1.accounts[client];
        let amt = m1.txs[tx].amount;
        if a.held@ >= amt@ {
            LedgerModel {
                accounts: m1.accounts.insert(
                    client,
                    Account {
                        available: Money((a.available@ + amt@) as i64),
                        held: Money((a.held@ - amt@) as i64),
                        ..a
                    },
                ),
                txs: m1.txs.insert(
                    tx,
                    TransactionRecord { tx_status: TxStatus::Resolved, ..m1.txs[tx] },
                ),
            }
        } else {
            m1
        }
    }
}

/// Releasing the resolved amount stays within the machine integer range.
pub open spec fn resolve_fits(m: LedgerModel, client: u16, tx: u32) -> bool {
    resolve_applies(m, client, tx) && m.account(client).held@ >= m.txs[tx].amount@ ==> {
        &&& i64::MIN <= m.account(client).available@ + m.txs[tx].amount@ <= i64::MAX
        &&& i64::MIN <= m.account(client).held@ - m.txs[tx].amount@ <= i64::MAX
    }
}

/// Applies a resolve event to the ledger.
///
/// Never fails: anything but an unlocked account with a matching `Disputed`
/// deposit and sufficient held funds is silently ignored.
pub fn handle(ledger: &mut Ledger, client: u16, tx: u32) -> (r: Result<(), AppError>)
    requires
        resolve_fits(old(ledger)@, client, tx),
    ensures
        r is Ok,
        final(ledger)@ == spec_resolve(old(ledger)@, client, tx),
{
    let acc = ledger.get_or_create_account(client);
    if acc.is_locked() {
        return Ok(());
    }
    let rec = match ledger.txs.get(&tx) {
        Some(t) => *t,
        None => {
            return Ok(());
        },
    };
    if rec.client != client {
        return Ok(());
    }
    if rec.tx_status != TxStatus::Disputed {
        return Ok(());
    }
    if rec.tx_type != TxType::Deposit {
        return Ok(());
    }
    if acc.held >= rec.amount {
        let updated = Account {
            available: acc.available + rec.amount,
            held: acc.held - rec.amount,
            ..acc
        };
        ledger.accounts.insert(client, updated);
        let mut resolved = rec;
        resolved.set_status(TxStatus::Resolved);
        ledger.txs.insert(tx, resolved);
    }
    proof {
        assert(ledger@ =~= spec_resolve(old(ledger)@, client, tx));
    }
    Ok(())
}

} // verus!
