//! The dispatcher: routes each event to exactly one handler.

use vstd::prelude::*;
use crate::common::error::AppError;
use crate::common::event::TransactionEvent;
use crate::domain::ledger::{Ledger, LedgerModel};
use crate::worker::handlers::{chargeback, deposit, dispute, resolve, withdrawal};

verus! {

broadcast use vstd::std_specs::hash::group_hash_axioms;

/// The ledger after one event, whichever kind it is.
pub open spec fn spec_apply(m: LedgerModel, event: TransactionEvent) -> LedgerModel {
    match event {
        TransactionEvent::Deposit { client, tx, amount } => deposit::spec_deposit(
            m,
            client,
            tx,
            amount,
        ),
        TransactionEvent::Withdrawal { client, tx, amount } => withdrawal::spec_withdrawal(
            m,
            client,
            tx,
            amount,
        ),
        TransactionEvent::Dispute { client, tx } => dispute::spec_dispute(m, client, tx),
        TransactionEvent::Resolve { client, tx } => resolve::spec_resolve(m, client, tx),
        TransactionEvent::Chargeback { client, tx } => chargeback::spec_chargeback(m, client, tx),
    }
}

/// The event is admissible against this ledger: its amount, if it carries
/// one, is non-negative — the upstream parser guarantees that — and
/// applying it keeps every balance within the machine integer range.
pub open spec fn event_fits(m: LedgerModel, event: TransactionEvent) -> bool {
    match event {
        TransactionEvent::Deposit { client, tx, amount } => amount@ >= 0
            && deposit::deposit_fits(m, client, tx, amount),
        TransactionEvent::Withdrawal { client: _, tx: _, amount } => amount@ >= 0,
        TransactionEvent::Dispute { client, tx } => dispute::dispute_fits(m, client, tx),
        TransactionEvent::Resolve { client, tx } => resolve::resolve_fits(m, client, tx),
        TransactionEvent::Chargeback { client, tx } => chargeback::chargeback_fits(m, client, tx),
    }
}

/// The ledger after a whole sequence of events, applied one at a time in
/// arrival order.
pub open spec fn spec_replay(m: LedgerModel, events: Seq<TransactionEvent>) -> LedgerModel
    decreases events.len(),
{
    if events.len() == 0 {
        m
    } else {
        spec_replay(spec_apply(m, events.first()), events.drop_first())
    }
}

/// Every event of the sequence is admissible against the state it meets.
pub open spec fn replay_fits(m: LedgerModel, events: Seq<TransactionEvent>) -> bool
    decreases events.len(),
{
    events.len() == 0 || (event_fits(m, events.first()) && replay_fits(
        spec_apply(m, events.first()),
        events.drop_first(),
    ))
}

/// Replaying one more event applies it to the replayed state.
proof fn lemma_replay_push(m: LedgerModel, s: Seq<TransactionEvent>, e: TransactionEvent)
    ensures
        spec_replay(m, s.push(e)) == spec_apply(spec_replay(m, s), e),
    decreases s.len(),
{
    if s.len() == 0 {
        assert(s.push(e).first() == e);
        assert(s.push(e).drop_first() =~= Seq::<TransactionEvent>::empty());
        assert(spec_replay(m, s.push(e)) == spec_replay(
            spec_apply(m, e),
            s.push(e).drop_first(),
        ));
        assert(spec_replay(spec_apply(m, e), Seq::<TransactionEvent>::empty()) == spec_apply(
            m,
            e,
        ));
        assert(spec_replay(m, s) == m);
    } else {
        assert(s.push(e).first() == s.first());
        assert(s.push(e).drop_first() =~= s.drop_first().push(e));
        assert(spec_replay(m, s.push(e)) == spec_replay(
            spec_apply(m, s.first()),
            s.drop_first().push(e),
        ));
        lemma_replay_push(spec_apply(m, s.first()), s.drop_first(), e);
        assert(spec_replay(m, s) == spec_replay(spec_apply(m, s.first()), s.drop_first()));
    }
}

/// The stateless dispatcher over the five event handlers.
pub struct Processor {}

impl Processor {
    pub fn new() -> (r: Self)
        ensures
            r == (Processor {  }),
    {
        Self {  }
    }

    /// Routes `event` to its handler.
    ///
    /// Under the handler contracts no event ever fails: every invalid-state
    /// condition is a silent no-op, so the stream keeps being processed.
    pub fn process(&mut self, ledger: &mut Ledger, event: TransactionEvent) -> (r: Result<
        (),
        AppError,
    >)
        requires
            event_fits(old(ledger)@, event),
        ensures
            r is Ok,
            final(ledger)@ == spec_apply(old(ledger)@, event),
    {
        match event {
            TransactionEvent::Deposit { client, tx, amount } => deposit::handle(
                ledger,
                client,
                tx,
                amount,
            ),
            TransactionEvent::Withdrawal { client, tx, amount } => withdrawal::handle(
                ledger,
                client,
                tx,
                amount,
            ),
            TransactionEvent::Dispute { client, tx } => dispute::handle(ledger, client, tx),
            TransactionEvent::Resolve { client, tx } => resolve::handle(ledger, client, tx),
            TransactionEvent::Chargeback { client, tx } => chargeback::handle(ledger, client, tx),
        }
    }

    /// Applies every event of `events` to the ledger, in order.
    ///
    /// This is the whole run of the core: strictly sequential, each event
    /// dispatched to exactly one handler, no event ever failing.
    pub fn replay(&mut self, ledger: &mut Ledger, events: &Vec<TransactionEvent>) -> (r: Result<
        (),
        AppError,
    >)
        requires
            replay_fits(old(ledger)@, events@),
        ensures
            r is Ok,
            final(ledger)@ == spec_replay(old(ledger)@, events@),
    {
        let mut i: usize = 0;
        proof {
            assert(events@.skip(0) =~= events@);
            assert(events@.take(0) =~= Seq::<TransactionEvent>::empty());
        }
        while i < events.len()
            invariant
                0 <= i <= events@.len(),
                ledger@ == spec_replay(old(ledger)@, events@.take(i as int)),
                replay_fits(ledger@, events@.skip(i as int)),
            decreases events@.len() - i,
        {
            let e = events[i];
            proof {
                assert(events@.skip(i as int).first() == e);
            }
            let _ = self.process(ledger, e);
            proof {
                assert(events@.take(i + 1 as int) =~= events@.take(i as int).push(e));
                lemma_replay_push(old(ledger)@, events@.take(i as int), e);
                assert(events@.skip(i as int).drop_first() =~= events@.skip(i + 1 as int));
            }
            i = i + 1;
        }
        proof {
            assert(events@.take(events@.len() as int) =~= events@);
        }
        Ok(())
    }
}

/// Decides [`event_fits`] for a concrete ledger and event, so that an
/// unverified caller can test the precondition of
/// [`Processor::process`] before calling it.
pub fn event_fits_check(ledger: &Ledger, event: &TransactionEvent) -> (b: bool)
    ensures
        b == event_fits(ledger@, *event),
{
    match *event {
        TransactionEvent::Deposit { client, tx, amount } => {
            if amount.0 < 0 {
                return false;
            }
            let (locked, available) = match ledger.accounts.get(&client) {
                Some(a) => (a.locked, a.available.0),
                None => (false, 0i64),
            };
            if locked || ledger.txs.contains_key(&tx) {
                true
            } else {
                available as i128 + amount.0 as i128 <= i64::MAX as i128
            }
        },
        TransactionEvent::Withdrawal { client: _, tx: _, amount } => amount.0 >= 0,
        TransactionEvent::Dispute { client, tx } => {
            let (locked, available, held) = match ledger.accounts.get(&client) {
                Some(a) => (a.locked, a.available.0, a.held.0),
                None => (false, 0i64, 0i64),
            };
            let rec = match ledger.txs.get(&tx) {
                Some(t) => *t,
                None => {
                    return true;
                },
            };
            if locked || rec.client != client || rec.tx_type != crate::domain::transaction::TxType::Deposit
                || rec.tx_status != crate::domain::transaction::TxStatus::Normal {
                true
            } else {
                let amt = rec.amount.0 as i128;
                i64::MIN as i128 <= available as i128 - amt && available as i128 - amt <= i64::MAX as i128
                    && i64::MIN as i128 <= held as i128 + amt && held as i128 + amt <= i64::MAX as i128
            }
        },
        TransactionEvent::Resolve { client, tx } => {
            let (locked, available, held) = match ledger.accounts.get(&client) {
                Some(a) => (a.locked, a.available.0, a.held.0),
                None => (false, 0i64, 0i64),
            };
            let rec = match ledger.txs.get(&tx) {
                Some(t) => *t,
                None => {
                    return true;
                },
            };
            if locked || rec.client != client || rec.tx_type != crate::domain::transaction::TxType::Deposit
                || rec.tx_status != crate::domain::transaction::TxStatus::Disputed
                || held < rec.amount.0 {
                true
            } else {
                let amt = rec.amount.0 as i128;
                i64::MIN as i128 <= available as i128 + amt && available as i128 + amt <= i64::MAX as i128
                    && i64::MIN as i128 <= held as i128 - amt && held as i128 - amt <= i64::MAX as i128
            }
        },
        TransactionEvent::Chargeback { client, tx } => {
            let (locked, held) = match ledger.accounts.get(&client) {
                Some(a) => (a.locked, a.held.0),
                None => (false, 0i64),
            };
            let rec = match ledger.txs.get(&tx) {
                Some(t) => *t,
                None => {
                    return true;
                },
            };
            if locked || rec.client != client || rec.tx_type != crate::domain::transaction::TxType::Deposit
                || rec.tx_status != crate::domain::transaction::TxStatus::Disputed
                || held < rec.amount.0 {
                true
            } else {
                let amt = rec.amount.0 as i128;
                i64::MIN as i128 <= held as i128 - amt && held as i128 - amt <= i64::MAX as i128
            }
        },
    }
}

} // verus!
