//! The dispute handler: freezes the funds of a referenced deposit.

use vstd::prelude::*;
use crate::common::error::AppError;
use crate::common::money::Money;
use crate::domain::account::Account;
use crate::domain::ledger::{Ledger, LedgerModel};
use crate::domain::transaction::{TransactionRecord, TxStatus, TxType};

verus! {

broadcast use vstd::std_specs::hash::group_hash_axioms;

/// Whether a dispute for `tx` raised by `client` takes effect: the account
/// is unlocked and `tx` names a `Normal` deposit owned by that client.
pub open spec fn dispute_applies(m: LedgerModel, client: u16, tx: u32) -> bool {
    &&& !m.account(client).locked
    &&& m.txs.contains_key(tx)
    &&& m.txs[tx].client == client
    &&& m.txs[tx].tx_type == TxType::Deposit
    &&& m.txs[tx].tx_status == TxStatus::Normal
}

/// The ledger after a dispute event.
///
/// When the dispute applies, the record's amount moves from `available` to
/// `held` — even if `available` goes negative — and the record becomes
/// `Disputed`.  Otherwise nothing changes beyond lazily creating the
/// account.
pub open spec fn spec_dispute(m: LedgerModel, client: u16, tx: u32) -> LedgerModel {
    let m1 = m.ensure_account(client);
    if !dispute_applies(m, client, tx) {
        m1
    } else {
        let a = m1.accounts[client];
        let amt = m1.txs[tx].amount;
        LedgerModel {
            accounts: m1.accounts.insert(
                client,
                Account {
                    available: Money((a.available@ - amt@) as i64),
                    held: Money((a.held@ + amt@) as i64),
                    ..a
                },
            ),
            txs: m1.txs.insert(
                tx,
                TransactionRecord { tx_status: TxStatus::Disputed, ..m1.txs[tx] },
            ),
        }
    }
}

/// Moving the disputed amount stays within the machine integer range.
pub open spec fn dispute_fits(m: LedgerModel, client: u16, tx: u32) -> bool {
    dispute_applies(m, client, tx) ==> {
        &&& i64::MIN <= m.account(client).available@ - m.txs[tx].amount@ <= i64::MAX
        &&& i64::MIN <= m.account(client).held@ + m.txs[tx].amount@ <= i64::MAX
    }
}

/// Applies a dispute event to the ledger.
///
/// Never fails: a locked account, an unknown transaction id, a foreign or
/// non-deposit transaction, or a status other than `Normal` is silently
/// ignored.
pub fn handle(ledger: &mut Ledger, client: u16, tx: u32) -> (r: Result<(), AppError>)
    requires
        dispute_fits(old(ledger)@, client, tx),
    ensures
        r is Ok,
        final(ledger)@ == spec_dispute(old(ledger)@, client, tx),
{
    let acc = ledger.get_or_create_account(client);
    if acc.is_locked() {
        return Ok(());
    }
    let rec = match ledger.txs.get(&tx) {
        Some(t) => *t,
        None => {
            return Ok(());
        },
    };
    if rec.client != client {
        return Ok(());
    }
    if rec.tx_type != TxType::Deposit {
        return Ok(());
    }
    if rec.tx_status != TxStatus::Normal {
        return Ok(());
    }
    let updated = Account {
        available: acc.available - rec.amount,
        held: acc.held + rec.amount,
        ..acc
    };
    ledger.accounts.insert(client, updated);
    let mut disputed = rec;
    disputed.set_status(TxStatus::Disputed);
    ledger.txs.insert(tx, disputed);
    proof {
        assert(ledger@ =~= spec_dispute(old(ledger)@, client, tx));
    }
    Ok(())
}

} // verus!
