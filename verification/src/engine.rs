//! The payments engine.
//!
//! The engine is decoupled from all I/O. It is fed already parsed
//! [`Transaction`]s one at a time through
//! [`PaymentsEngine::process_transaction`], updates its in-memory state, and
//! can later be drained for output. Each transaction is first turned into a
//! [`Change`] (what to store, and what to answer), which is then applied.

use std::collections::HashMap;

use vstd::prelude::*;

use crate::account::Account;
use crate::error::{ProcessingError, ProcessingErrorKind};
use crate::laws::{law_empty_held_matches_disputes, law_held_matches_disputes, law_step_keeps_wf};
use crate::ledger::{
    chargeback_step, deposit_step, dispute_step, disputable_deposit, required_amount,
    resolve_step, step, step_within_limits, withdrawal_step, DepositEntry, DepositState, Ledger,
    Outcome,
};
use crate::record::AccountRecord;
use crate::model::{Amount, ClientId, Transaction, TxId, TxType, MAX_UNITS};

verus! {

broadcast use vstd::std_specs::hash::group_hash_axioms;

/// A stored deposit, retained so that later disputes can look up its amount
/// and owning client. Only deposits are disputable.
#[derive(Clone, Copy, Debug, PartialEq, Eq, Structural)]
struct Deposit {
    /// The client that made the deposit.
    client: ClientId,
    /// The amount deposited.
    amount: Amount,
    /// Where the deposit is in its dispute lifecycle.
    state: DepositState,
}

impl View for Deposit {
    type V = DepositEntry;

    closed spec fn view(&self) -> DepositEntry {
        DepositEntry { client: self.client, amount: self.amount.value(), state: self.state }
    }
}

/// The change that one transaction makes: the account to store for its
/// client, the deposit to store under its id, and the answer.
struct Change {
    /// The new state of the client's account, if it is to be stored.
    account: Option<Account>,
    /// The new state of the referenced deposit, if it is to be stored.
    deposit: Option<Deposit>,
    /// What the transaction answers.
    outcome: Result<(), ProcessingError>,
}

/// The ledger after `c` is applied for `tx`, with the answer it carries.
spec fn applied(l: Ledger, tx: Transaction, c: Change) -> (Ledger, Outcome) {
    let l1 = match c.account {
        Some(a) => l.set_balance(tx.client, a@),
        None => l,
    };
    let l2 = match c.deposit {
        Some(d) => l1.set_deposit(tx.tx_id, d@),
        None => l1,
    };
    (l2, c.outcome)
}

/// The change that rejects `tx` with `kind`, storing nothing.
fn reject(tx: &Transaction, kind: ProcessingErrorKind) -> (c: Change)
    ensures
        c.account is None,
        c.deposit is None,
        c.outcome == Err::<(), ProcessingError>(ProcessingError { tx_id: tx.tx_id, kind }),
{
    Change { account: None, deposit: None, outcome: Err(ProcessingError::new(tx.tx_id, kind)) }
}

/// The in-memory transaction processor.
pub struct PaymentsEngine {
    /// One account per client. Created lazily on first reference.
    accounts: HashMap<ClientId, Account>,
    /// Disputable transactions (deposits) keyed by their globally unique id.
    deposits: HashMap<TxId, Deposit>,
}

impl View for PaymentsEngine {
    type V = Ledger;

    closed spec fn view(&self) -> Ledger {
        Ledger {
            accounts: self.accounts@.map_values(|a: Account| a@),
            deposits: self.deposits@.map_values(|d: Deposit| d@),
        }
    }
}

impl PaymentsEngine {
    /// The engine is in a state it can reach: balances in range, retained
    /// deposits owned by known clients, and every client's held funds equal
    /// to the sum of its disputed deposits.
    pub open spec fn wf(&self) -> bool {
        self@.wf() && self@.held_matches_disputes()
    }

    /// Creates an empty engine.
    pub fn new() -> (r: Self)
        ensures
            r@ == Ledger::empty(),
            r.wf(),
    {
        let r = PaymentsEngine { accounts: HashMap::new(), deposits: HashMap::new() };
        assert(r@.accounts =~= Map::empty());
        assert(r@.deposits =~= Map::empty());
        proof {
            law_empty_held_matches_disputes();
        }
        r
    }

    /// The account of `client`, if it has one.
    pub fn account(&self, client: ClientId) -> (r: Option<Account>)
        ensures
            r is Some <==> self@.accounts.contains_key(client),
            r matches Some(a) ==> a@ == self@.accounts[client],
    {
        match self.accounts.get(&client) {
            Some(a) => Some(*a),
            None => None,
        }
    }

    /// Every `(client, account)` pair, each client once. The order is
    /// unspecified.
    pub fn accounts(&self) -> (r: Vec<(ClientId, Account)>)
        ensures
            r@.len() == self@.accounts.dom().len(),
            forall|i: int|
                0 <= i < r@.len() ==> self@.accounts.contains_key(#[trigger] r@[i].0)
                    && self@.accounts[r@[i].0] == r@[i].1@,
            forall|c: ClientId| #[trigger]
                self@.accounts.contains_key(c) ==> exists|i: int| 0 <= i < r@.len() && r@[i].0 == c,
            forall|i: int, j: int| 0 <= i < j < r@.len() ==> r@[i].0 != r@[j].0,
    {
        let mut r: Vec<(ClientId, Account)> = Vec::new();
        let ghost v = vstd::std_specs::iter::IteratorSpec::remaining(
            &vstd::std_specs::hash::spec_hash_map_iter(&self.accounts),
        );
        for (c, a) in it: self.accounts.iter()
            invariant
                it.seq() == v,
                r@.len() == it.index(),
                forall|i: int|
                    0 <= i < it.index() ==> #[trigger] r@[i] == (*it.seq()[i].0, *it.seq()[i].1),
        {
            r.push((*c, *a));
        }
        proof {
            assert(v.len() == self.accounts@.dom().len());
            assert forall|i: int, j: int| 0 <= i < j < r@.len() implies r@[i].0 != r@[j].0 by {
                if r@[i].0 == r@[j].0 {
                    assert(self.accounts@[*v[i].0] == *v[i].1);
                    assert(self.accounts@[*v[j].0] == *v[j].1);
                    assert(v[i] == v[j]);
                }
            }
            assert forall|c: ClientId| #[trigger]
                self@.accounts.contains_key(c) implies exists|i: int| 0 <= i < r@.len() && r@[i].0 == c by {
                assert(self.accounts@.contains_key(c));
                assert(v.contains((&c, &self.accounts@[c])));
                let i = choose|i: int| 0 <= i < v.len() && v[i] == (&c, &self.accounts@[c]);
                assert(r@[i].0 == c);
            }
            assert(self@.accounts.dom() =~= self.accounts@.dom());
        }
        r
    }

    /// Whether every account's total (available + held) lies in the range of
    /// amounts.
    pub open spec fn totals_within_limits(&self) -> bool {
        forall|c: ClientId| #[trigger]
            self@.accounts.contains_key(c) ==> -MAX_UNITS <= self@.accounts[c].total()
                <= MAX_UNITS
    }

    /// One output record per account, each client once, in unspecified
    /// order; `None` when some account's total lies beyond the range of
    /// amounts.
    pub fn account_records(&self) -> (r: Option<Vec<AccountRecord>>)
        requires
            self.wf(),
        ensures
            r is Some <==> self.totals_within_limits(),
            r matches Some(v) ==> {
                &&& v@.len() == self@.accounts.dom().len()
                &&& forall|i: int|
                    0 <= i < v@.len() ==> {
                        let c = #[trigger] v@[i].client;
                        &&& self@.accounts.contains_key(c)
                        &&& v@[i].available.value() == self@.accounts[c].available
                        &&& v@[i].held.value() == self@.accounts[c].held
                        &&& v@[i].total.value() == self@.accounts[c].total()
                        &&& v@[i].locked == self@.accounts[c].locked
                    }
                &&& forall|c: ClientId| #[trigger]
                    self@.accounts.contains_key(c) ==> exists|i: int|
                        0 <= i < v@.len() && v@[i].client == c
                &&& forall|i: int, j: int| 0 <= i < j < v@.len() ==> v@[i].client != v@[j].client
            },
    {
        let pairs = self.accounts();
        let mut out: Vec<AccountRecord> = Vec::new();
        let mut k: usize = 0;
        while k < pairs.len()
            invariant
                self.wf(),
                k <= pairs@.len(),
                out@.len() == k,
                pairs@.len() == self@.accounts.dom().len(),
                forall|i: int|
                    0 <= i < pairs@.len() ==> self@.accounts.contains_key(#[trigger] pairs@[i].0)
                        && self@.accounts[pairs@[i].0] == pairs@[i].1@,
                forall|i: int|
                    0 <= i < k ==> (#[trigger] out@[i]).client == pairs@[i].0 && out@[i].available
                        == pairs@[i].1.available && out@[i].held == pairs@[i].1.held
                        && out@[i].total.value() == pairs@[i].1@.total() && out@[i].locked
                        == pairs@[i].1.locked,
                forall|i: int| 0 <= i < k ==> (#[trigger] pairs@[i]).1.total_in_range(),
            decreases pairs@.len() - k,
        {
            let (c, a) = pairs[k];
            assert(self@.accounts.contains_key(pairs@[k as int].0));
            if !a.total_fits() {
                return None;
            }
            out.push(AccountRecord::from_account(c, &a));
            k = k + 1;
        }
        proof {
            assert forall|c: ClientId| #[trigger] self@.accounts.contains_key(c) implies -MAX_UNITS
                <= self@.accounts[c].total() <= MAX_UNITS by {
                let i = choose|i: int| 0 <= i < pairs@.len() && pairs@[i].0 == c;
                assert(pairs@[i].1.total_in_range());
            }
            assert forall|i: int, j: int| 0 <= i < j < out@.len() implies out@[i].client
                != out@[j].client by {
                assert(out@[i].client == pairs@[i].0);
                assert(out@[j].client == pairs@[j].0);
            }
            assert forall|c: ClientId| #[trigger] self@.accounts.contains_key(c) implies exists|
                i: int,
            | 0 <= i < out@.len() && out@[i].client == c by {
                let i = choose|i: int| 0 <= i < pairs@.len() && pairs@[i].0 == c;
                assert(out@[i].client == c);
            }
        }
        Some(out)
    }

    /// The account of `client`, or a fresh one when it has none.
    fn account_or_default(&self, client: ClientId) -> (r: Account)
        requires
            self.wf(),
        ensures
            r@ == self@.balance(client),
            r.available.valid(),
            r.held.valid(),
    {
        match self.accounts.get(&client) {
            Some(a) => *a,
            None => Account::default(),
        }
    }

    /// Processes a single transaction, updating the accounts.
    ///
    /// Returns `Ok(())` on success. A returned [`ProcessingError`] is
    /// recoverable: the offending row can be reported and skipped, and
    /// processing continues with the next one.
    pub fn process_transaction(&mut self, transaction: &Transaction) -> (r: Result<
        (),
        ProcessingError,
    >)
        requires
            old(self).wf(),
            step_within_limits(old(self)@, *transaction),
        ensures
            (final(self)@, r) == step(old(self)@, *transaction),
            final(self).wf(),
    {
        let c = self.plan(transaction);
        match c.account {
            Some(a) => {
                self.accounts.insert(transaction.client, a);
            },
            None => {},
        }
        match c.deposit {
            Some(d) => {
                self.deposits.insert(transaction.tx_id, d);
            },
            None => {},
        }
        proof {
            let l = old(self)@;
            let l1 = match c.account {
                Some(a) => l.set_balance(transaction.client, a@),
                None => l,
            };
            assert(self@.accounts =~= l1.accounts);
            assert(self@.deposits =~= applied(l, *transaction, c).0.deposits);
            law_step_keeps_wf(l, *transaction);
            law_held_matches_disputes(l, *transaction);
        }
        c.outcome
    }

    /// Whether `transaction` can be processed with every balance staying in
    /// the range of amounts: the condition under which
    /// [`PaymentsEngine::process_transaction`] may be called.
    pub fn within_limits_after(&self, transaction: &Transaction) -> (r: bool)
        requires
            self.wf(),
        ensures
            r == step_within_limits(self@, *transaction),
    {
        let amount_ok = match transaction.amount {
            Some(a) => -MAX_UNITS <= a.units && a.units <= MAX_UNITS,
            None => true,
        };
        if !amount_ok {
            return false;
        }
        let c = self.plan(transaction);
        let ok = match c.account {
            Some(a) => -MAX_UNITS <= a.available.units && a.available.units <= MAX_UNITS
                && -MAX_UNITS <= a.held.units && a.held.units <= MAX_UNITS,
            None => true,
        };
        proof {
            let l = self@;
            let l1 = applied(l, *transaction, c).0;
            if ok {
                assert forall|x: ClientId| #[trigger] l1.accounts.contains_key(x) implies -MAX_UNITS
                    <= l1.accounts[x].available <= MAX_UNITS && -MAX_UNITS <= l1.accounts[x].held
                    <= MAX_UNITS by {
                    if x != transaction.client {
                        assert(l.accounts.contains_key(x));
                    }
                }
            } else {
                let a = c.account.unwrap();
                assert(l1.accounts.contains_key(transaction.client));
                assert(l1.accounts[transaction.client] == a@);
            }
        }
        ok
    }

    /// The change that `transaction` makes.
    fn plan(&self, transaction: &Transaction) -> (c: Change)
        requires
            self.wf(),
            transaction.valid(),
        ensures
            applied(self@, *transaction, c) == step(self@, *transaction),
            c.deposit matches Some(d) ==> d.amount.valid(),
    {
        // A locked account is frozen: no transaction type may touch it, so
        // reject up front before dispatching to a handler.
        match self.accounts.get(&transaction.client) {
            Some(a) => {
                if a.locked {
                    return reject(transaction, ProcessingErrorKind::AccountLocked);
                }
            },
            None => {},
        }
        match transaction.tx_type {
            TxType::Deposit => self.deposit(transaction),
            TxType::Withdrawal => self.withdrawal(transaction),
            TxType::Dispute => self.dispute(transaction),
            TxType::Resolve => self.resolve(transaction),
            TxType::Chargeback => self.chargeback(transaction),
        }
    }

    // --- Handlers ---------------------------------------------------------

    fn deposit(&self, transaction: &Transaction) -> (c: Change)
        requires
            self.wf(),
            transaction.valid(),
        ensures
            applied(self@, *transaction, c) == deposit_step(self@, *transaction),
            c.deposit matches Some(d) ==> d.amount.valid(),
    {
        let amount = match self.require_amount(transaction) {
            Ok(a) => a,
            Err(e) => {
                return Change { account: None, deposit: None, outcome: Err(e) };
            },
        };
        // A duplicate tx id must not overwrite an existing disputable
        // transaction.
        if self.deposits.contains_key(&transaction.tx_id) {
            return reject(transaction, ProcessingErrorKind::DuplicateTx);
        }
        let mut account = self.account_or_default(transaction.client);
        account.available = Amount { units: account.available.units + amount.units };
        let deposit = Deposit {
            client: transaction.client,
            amount,
            state: DepositState::Confirmed,
        };
        Change { account: Some(account), deposit: Some(deposit), outcome: Ok(()) }
    }

    fn withdrawal(&self, transaction: &Transaction) -> (c: Change)
        requires
            self.wf(),
            transaction.valid(),
        ensures
            applied(self@, *transaction, c) == withdrawal_step(self@, *transaction),
            c.deposit is None,
    {
        let amount = match self.require_amount(transaction) {
            Ok(a) => a,
            Err(e) => {
                return Change { account: None, deposit: None, outcome: Err(e) };
            },
        };
        let mut account = self.account_or_default(transaction.client);
        if account.available.units < amount.units {
            return reject(transaction, ProcessingErrorKind::InsufficientFunds);
        }
        account.available = Amount { units: account.available.units - amount.units };
        Change { account: Some(account), deposit: None, outcome: Ok(()) }
    }

    fn dispute(&self, transaction: &Transaction) -> (c: Change)
        requires
            self.wf(),
        ensures
            applied(self@, *transaction, c) == dispute_step(self@, *transaction),
            c.deposit matches Some(d) ==> d.amount.valid(),
    {
        let deposit = match self.disputable_deposit(transaction, DepositState::Confirmed) {
            Ok(d) => d,
            Err(e) => {
                return Change { account: None, deposit: None, outcome: Err(e) };
            },
        };
        let amount = deposit.amount;
        let mut account = self.account_or_default(transaction.client);
        account.available = Amount { units: account.available.units - amount.units };
        account.held = Amount { units: account.held.units + amount.units };
        let updated = Deposit { state: DepositState::Disputed, ..deposit };
        Change { account: Some(account), deposit: Some(updated), outcome: Ok(()) }
    }

    fn resolve(&self, transaction: &Transaction) -> (c: Change)
        requires
            self.wf(),
        ensures
            applied(self@, *transaction, c) == resolve_step(self@, *transaction),
            c.deposit matches Some(d) ==> d.amount.valid(),
    {
        let deposit = match self.disputable_deposit(transaction, DepositState::Disputed) {
            Ok(d) => d,
            Err(e) => {
                return Change { account: None, deposit: None, outcome: Err(e) };
            },
        };
        let amount = deposit.amount;
        let mut account = self.account_or_default(transaction.client);
        account.held = Amount { units: account.held.units - amount.units };
        account.available = Amount { units: account.available.units + amount.units };
        let updated = Deposit { state: DepositState::Confirmed, ..deposit };
        Change { account: Some(account), deposit: Some(updated), outcome: Ok(()) }
    }

    fn chargeback(&self, transaction: &Transaction) -> (c: Change)
        requires
            self.wf(),
        ensures
            applied(self@, *transaction, c) == chargeback_step(self@, *transaction),
            c.deposit matches Some(d) ==> d.amount.valid(),
    {
        let deposit = match self.disputable_deposit(transaction, DepositState::Disputed) {
            Ok(d) => d,
            Err(e) => {
                return Change { account: None, deposit: None, outcome: Err(e) };
            },
        };
        let amount = deposit.amount;
        let mut account = self.account_or_default(transaction.client);
        account.held = Amount { units: account.held.units - amount.units };
        account.locked = true;
        let updated = Deposit { state: DepositState::ChargedBack, ..deposit };
        Change { account: Some(account), deposit: Some(updated), outcome: Ok(()) }
    }

    // --- Helpers ----------------------------------------------------------

    /// Extracts the amount from a transaction that requires one, rejecting
    /// missing or negative values.
    fn require_amount(&self, transaction: &Transaction) -> (r: Result<Amount, ProcessingError>)
        requires
            transaction.valid(),
        ensures
            match required_amount(*transaction) {
                Ok(a) => r matches Ok(x) && x.value() == a && x.valid(),
                Err(k) => r == Err::<Amount, ProcessingError>(
                    ProcessingError { tx_id: transaction.tx_id, kind: k },
                ),
            },
    {
        let amount = match transaction.amount {
            Some(a) => a,
            None => {
                return Err(
                    ProcessingError::new(transaction.tx_id, ProcessingErrorKind::MissingAmount),
                );
            },
        };
        if amount.is_sign_negative() {
            return Err(ProcessingError::new(transaction.tx_id, ProcessingErrorKind::NegativeAmount));
        }
        Ok(amount)
    }

    /// Validates that a referenced deposit exists, belongs to the requesting
    /// client, and is in the state required by the operation.
    fn disputable_deposit(&self, transaction: &Transaction, required: DepositState) -> (r: Result<
        Deposit,
        ProcessingError,
    >)
        requires
            self.wf(),
        ensures
            match disputable_deposit(self@, *transaction, required) {
                Ok(d) => r matches Ok(x) && x@ == d && x.amount.valid() && 0 <= x.amount.value(),
                Err(k) => r == Err::<Deposit, ProcessingError>(
                    ProcessingError { tx_id: transaction.tx_id, kind: k },
                ),
            },
    {
        let deposit = match self.deposits.get(&transaction.tx_id) {
            Some(d) => *d,
            None => {
                return Err(ProcessingError::new(transaction.tx_id, ProcessingErrorKind::UnknownTx));
            },
        };
        if deposit.client != transaction.client {
            return Err(ProcessingError::new(transaction.tx_id, ProcessingErrorKind::ClientMismatch));
        }
        if deposit.state != required {
            return Err(
                ProcessingError::new(transaction.tx_id, ProcessingErrorKind::IneligibleState),
            );
        }
        Ok(deposit)
    }
}

} // verus!
