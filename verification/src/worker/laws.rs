//! Laws of the ledger state machine, proved once and for all from the
//! handler transition functions.

use vstd::prelude::*;
use crate::common::event::TransactionEvent;
use crate::common::money::Money;
use crate::domain::ledger::LedgerModel;
use crate::domain::transaction::{TxStatus, TxType};
use crate::worker::handlers::{chargeback, deposit, dispute, resolve, withdrawal};
use crate::worker::processor;

verus! {

/// A deposit followed immediately by a dispute of the same transaction
/// freezes exactly the deposited amount: `held` grows by the amount and
/// `available` returns to its pre-deposit value — even when that value is
/// negative.  The record ends up `Disputed` with the deposited amount.
pub proof fn lemma_deposit_then_dispute(m: LedgerModel, client: u16, tx: u32, amount: Money)
    requires
        m.admits_new_tx(client, tx),
        amount@ >= 0,
        m.account(client).available@ + amount@ <= i64::MAX,
        i64::MIN <= m.account(client).held@ + amount@ <= i64::MAX,
    ensures
        ({
            let m2 = dispute::spec_dispute(
                deposit::spec_deposit(m, client, tx, amount),
                client,
                tx,
            );
            &&& m2.accounts[client].available@ == m.account(client).available@
            &&& m2.accounts[client].held@ == m.account(client).held@ + amount@
            &&& m2.accounts[client].locked == false
            &&& m2.txs[tx].tx_status == TxStatus::Disputed
            &&& m2.txs[tx].amount == amount
        }),
{
}

/// Once an account is locked, no event for that client changes the ledger
/// at all: balances, the lock, and every transaction's status stay exactly
/// as they are.
pub proof fn lemma_locked_account_inert(m: LedgerModel, event: TransactionEvent)
    requires
        m.accounts.contains_key(event.spec_client()),
        m.accounts[event.spec_client()].locked,
    ensures
        processor::spec_apply(m, event) == m,
{
    assert(processor::spec_apply(m, event) =~= m);
}

/// A second deposit or withdrawal bearing an already-present transaction id
/// is fully ignored: no balance changes, the original record stays as it
/// is, and nothing happens beyond lazily creating the client's account.
pub proof fn lemma_duplicate_tx_ignored(m: LedgerModel, client: u16, tx: u32, amount: Money)
    requires
        m.txs.contains_key(tx),
    ensures
        deposit::spec_deposit(m, client, tx, amount) == m.ensure_account(client),
        withdrawal::spec_withdrawal(m, client, tx, amount) == m.ensure_account(client),
{
}

/// Resolve and chargeback are no-ops (beyond lazily creating the client's
/// account) unless the referenced record exists, its status is exactly
/// `Disputed`, and its type is `Deposit`.
pub proof fn lemma_resolve_chargeback_need_disputed_deposit(m: LedgerModel, client: u16, tx: u32)
    requires
        m.txs.contains_key(tx) ==> !(m.txs[tx].tx_status == TxStatus::Disputed
            && m.txs[tx].tx_type == TxType::Deposit),
    ensures
        resolve::spec_resolve(m, client, tx) == m.ensure_account(client),
        chargeback::spec_chargeback(m, client, tx) == m.ensure_account(client),
{
}

} // verus!
