//! The rows at the CSV boundary: one parsed input row, and one output row per
//! client account.

use vstd::prelude::*;

use crate::account::Account;
use crate::model::{Amount, ClientId, TxId, TxType};

verus! {

/// One row of the input: `type, client, tx, amount`.
///
/// `amount` is optional because dispute/resolve/chargeback rows reference a
/// transaction by id and carry no amount.
#[derive(Clone, Copy, Debug, PartialEq, Eq, Structural)]
pub struct TransactionRecord {
    pub tx_type: TxType,
    pub tx_id: TxId,
    pub client: ClientId,
    pub amount: Option<Amount>,
}

/// One row of the output: `client, available, held, total, locked`.
#[derive(Clone, Copy, Debug, PartialEq, Eq, Structural)]
pub struct AccountRecord {
    pub client: ClientId,
    pub available: Amount,
    pub held: Amount,
    pub total: Amount,
    pub locked: bool,
}

impl AccountRecord {
    /// Builds an output record from a client's account. Every amount already
    /// carries exactly four decimal places.
    pub fn from_account(client: ClientId, account: &Account) -> (r: Self)
        requires
            account.total_in_range(),
        ensures
            r.client == client,
            r.available == account.available,
            r.held == account.held,
            r.total.value() == account@.total(),
            r.total.value() == r.available.value() + r.held.value(),
            r.total.valid(),
            r.locked == account.locked,
    {
        AccountRecord {
            client,
            available: account.available,
            held: account.held,
            total: account.total(),
            locked: account.locked,
        }
    }
}

} // verus!
