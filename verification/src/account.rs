//! The per-client account and its balances.

use vstd::prelude::*;

use crate::ledger::Balance;
use crate::model::{Amount, MAX_UNITS};

verus! {

/// A client's account.
///
/// Only `available` and `held` are stored, while `total` is derived on
/// demand, so `total == available + held` holds by construction.
#[derive(Clone, Copy, Debug, PartialEq, Eq, Structural)]
pub struct Account {
    /// Funds available.
    pub available: Amount,
    /// Funds held pending dispute resolution.
    pub held: Amount,
    /// Whether the account is frozen. Set once a chargeback occurs.
    pub locked: bool,
}

impl View for Account {
    type V = Balance;

    open spec fn view(&self) -> Balance {
        Balance {
            available: self.available.value(),
            held: self.held.value(),
            locked: self.locked,
        }
    }
}

impl Default for Account {
    fn default() -> (r: Self)
        ensures
            r@ == Balance::empty(),
    {
        Account { available: Amount::zero(), held: Amount::zero(), locked: false }
    }
}

impl Account {
    /// Whether the sum of available and held funds is a valid amount.
    pub open spec fn total_in_range(self) -> bool {
        -MAX_UNITS <= self@.total() <= MAX_UNITS
    }

    /// Whether [`Account::total`] can be computed for this account: the sum
    /// of available and held funds lies in the range of amounts.
    pub fn total_fits(&self) -> (r: bool)
        requires
            self.available.valid(),
            self.held.valid(),
        ensures
            r == self.total_in_range(),
    {
        let t = self.available.units + self.held.units;
        -MAX_UNITS <= t && t <= MAX_UNITS
    }

    /// Total funds: available + held. Always derived, never stored.
    pub fn total(&self) -> (r: Amount)
        requires
            self.total_in_range(),
        ensures
            r.value() == self@.total(),
            r.valid(),
    {
        Amount { units: self.available.units + self.held.units }
    }
}

} // verus!
