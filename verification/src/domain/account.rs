//! Per-client account state.

use vstd::prelude::*;
use crate::common::money::Money;

verus! {

/// The balance state of one client.
///
/// `available` is spendable, `held` is frozen by open disputes, and a locked
/// account (after a chargeback) is permanently inert.  Neither balance is
/// constrained to be non-negative: a dispute may legitimately drive
/// `available` below zero.
#[derive(Clone, Copy, Debug, PartialEq, Eq, Structural)]
pub struct Account {
    /// Funds available for normal use.
    pub available: Money,
    /// Funds held due to disputes.
    pub held: Money,
    /// Frozen after a chargeback.
    pub locked: bool,
}

impl Account {
    /// A fresh account: zero balances, unlocked.
    pub open spec fn spec_new() -> Account {
        Account { available: Money(0), held: Money(0), locked: false }
    }

    pub fn new() -> (r: Self)
        ensures
            r == Account::spec_new(),
    {
        Self { available: Money::zero(), held: Money::zero(), locked: false }
    }

    /// Total funds of the account: exactly `available + held`, with no
    /// rounding of any kind.
    pub fn total(&self) -> (r: Money)
        requires
            i64::MIN <= self.available@ + self.held@ <= i64::MAX,
        ensures
            r@ == self.available@ + self.held@,
    {
        self.available + self.held
    }

    pub fn is_locked(&self) -> (r: bool)
        ensures
            r == self.locked,
    {
        self.locked
    }
}

impl Default for Account {
    fn default() -> (r: Self)
        ensures
            r == Account::spec_new(),
    {
        Account { available: Money(0), held: Money(0), locked: false }
    }
}

} // verus!
