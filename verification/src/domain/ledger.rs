//! The ledger: the single mutable store of accounts and transaction
//! records.
//!
//! The ledger itself holds no validation logic; the event handlers in
//! `crate::worker::handlers` read and mutate it under their own contracts.
//! Its mathematical content is captured by [`LedgerModel`], two maps, which
//! every handler contract is stated over.

use vstd::prelude::*;
use std::collections::HashMap;
use crate::domain::account::Account;
use crate::domain::transaction::TransactionRecord;

verus! {

broadcast use vstd::std_specs::hash::group_hash_axioms;

/// The mathematical content of a [`Ledger`]: the client map and the
/// transaction map, with none of the hash-table plumbing.
#[verifier::ext_equal]
pub ghost struct LedgerModel {
    pub accounts: Map<u16, Account>,
    pub txs: Map<u32, TransactionRecord>,
}

impl LedgerModel {
    /// The model after making sure an account exists for `client`: a fresh
    /// zero-balance, unlocked account is inserted when absent, and nothing
    /// changes when one is already there.
    pub open spec fn ensure_account(self, client: u16) -> LedgerModel {
        if self.accounts.contains_key(client) {
            self
        } else {
            LedgerModel { accounts: self.accounts.insert(client, Account::spec_new()), ..self }
        }
    }

    /// The account of `client` once it is sure to exist.
    pub open spec fn account(self, client: u16) -> Account {
        self.ensure_account(client).accounts[client]
    }

    /// Whether a deposit or withdrawal bearing id `tx` for `client` would be
    /// recorded: the account is not locked and the id is not already taken.
    pub open spec fn admits_new_tx(self, client: u16, tx: u32) -> bool {
        &&& !self.account(client).locked
        &&& !self.txs.contains_key(tx)
    }
}

/// The aggregate owning every account and every transaction record.
#[derive(Debug)]
pub struct Ledger {
    pub accounts: HashMap<u16, Account>,
    pub txs: HashMap<u32, TransactionRecord>,
}

impl View for Ledger {
    type V = LedgerModel;

    open spec fn view(&self) -> LedgerModel {
        LedgerModel { accounts: self.accounts@, txs: self.txs@ }
    }
}

impl Ledger {
    pub fn new() -> (r: Self)
        ensures
            r@.accounts == Map::<u16, Account>::empty(),
            r@.txs == Map::<u32, TransactionRecord>::empty(),
    {
        Self { accounts: HashMap::new(), txs: HashMap::new() }
    }

    /// Read-only view of all accounts.
    pub fn accounts(&self) -> (r: &HashMap<u16, Account>)
        ensures
            r@ == self@.accounts,
    {
        &self.accounts
    }

    /// The client ids present in the ledger, in strictly ascending order.
    ///
    /// This is the deterministic order a snapshot consumer renders accounts
    /// in.
    pub fn sorted_clients(&self) -> (v: Vec<u16>)
        ensures
            forall|a: int, b: int| 0 <= a < b < v@.len() ==> v@[a] < v@[b],
            forall|c: u16| v@.contains(c) <==> self@.accounts.contains_key(c),
    {
        let mut v: Vec<u16> = Vec::new();
        let mut c: u32 = 0;
        while c < 65536
            invariant
                0 <= c <= 65536,
                forall|k: int| 0 <= k < v@.len() ==> (#[trigger] v@[k] as u32) < c,
                forall|a: int, b: int| 0 <= a < b < v@.len() ==> v@[a] < v@[b],
                forall|k: int| 0 <= k < v@.len() ==> self@.accounts.contains_key(#[trigger] v@[k]),
                forall|x: u16| (x as u32) < c && self@.accounts.contains_key(x) ==> v@.contains(x),
            decreases 65536 - c,
        {
            let cc = c as u16;
            if self.accounts.contains_key(&cc) {
                let ghost pre = v@;
                v.push(cc);
                proof {
                    assert forall|x: u16|
                        (x as u32) < c + 1 && self@.accounts.contains_key(x) implies v@.contains(
                        x,
                    ) by {
                        if x == cc {
                            assert(v@[pre.len() as int] == cc);
                        } else {
                            assert((x as u32) < c);
                            assert(pre.contains(x));
                            let k = choose|k: int| 0 <= k < pre.len() && pre[k] == x;
                            assert(v@[k] == x);
                        }
                    }
                }
            }
            c = c + 1;
        }
        v
    }

    /// Makes sure an account exists for `client` (inserting a zero-balance
    /// unlocked one when absent) and returns a copy of it.
    pub fn get_or_create_account(&mut self, client: u16) -> (acc: Account)
        ensures
            final(self)@ == old(self)@.ensure_account(client),
            final(self)@.accounts.contains_key(client),
            acc == old(self)@.account(client),
    {
        if !self.accounts.contains_key(&client) {
            self.accounts.insert(client, Account::new());
        }
        let acc = *self.accounts.get(&client).unwrap();
        proof {
            assert(self@ =~= old(self)@.ensure_account(client));
        }
        acc
    }
}

impl Default for Ledger {
    fn default() -> (r: Self)
        ensures
            r@.accounts == Map::<u16, Account>::empty(),
            r@.txs == Map::<u32, TransactionRecord>::empty(),
    {
        Ledger::new()
    }
}

} // verus!
