//! The mathematical model of the engine: a ledger of balances and retained
//! deposits, and the transition that one transaction makes on it.

use vstd::prelude::*;

use crate::error::{ProcessingError, ProcessingErrorKind};
use crate::model::{ClientId, Transaction, TxId, TxType, MAX_UNITS};

verus! {

/// Lifecycle of a disputable transaction (a deposit).
#[derive(Clone, Copy, Debug, PartialEq, Eq, Structural)]
pub enum DepositState {
    /// Confirmed and not currently disputed.
    Confirmed,
    /// Currently under dispute; its amount is held.
    Disputed,
    /// Charged back; terminal state, cannot be disputed again.
    ChargedBack,
}

/// A client's balances, in ten-thousandths.
pub ghost struct Balance {
    pub available: int,
    pub held: int,
    pub locked: bool,
}

impl Balance {
    /// The balances of a fresh account.
    pub open spec fn empty() -> Balance {
        Balance { available: 0, held: 0, locked: false }
    }

    /// Total funds: available + held.
    pub open spec fn total(self) -> int {
        self.available + self.held
    }
}

/// A retained deposit: its owner, its amount and where it is in its
/// dispute lifecycle.
pub ghost struct DepositEntry {
    pub client: ClientId,
    pub amount: int,
    pub state: DepositState,
}

/// The state of the engine: one balance per known client, and every accepted
/// deposit by its transaction id.
pub ghost struct Ledger {
    pub accounts: Map<ClientId, Balance>,
    pub deposits: Map<TxId, DepositEntry>,
}

/// What one transaction of the engine gives back.
pub type Outcome = Result<(), ProcessingError>;

impl Ledger {
    /// The ledger of a fresh engine.
    pub open spec fn empty() -> Ledger {
        Ledger { accounts: Map::empty(), deposits: Map::empty() }
    }

    /// The balances of `client`; those of a fresh account when it has none.
    pub open spec fn balance(self, client: ClientId) -> Balance {
        if self.accounts.contains_key(client) {
            self.accounts[client]
        } else {
            Balance::empty()
        }
    }

    /// Whether `client` has an account and that account is locked.
    pub open spec fn is_locked(self, client: ClientId) -> bool {
        self.accounts.contains_key(client) && self.accounts[client].locked
    }

    /// The ledger with the balances of `client` replaced.
    pub open spec fn set_balance(self, client: ClientId, b: Balance) -> Ledger {
        Ledger { accounts: self.accounts.insert(client, b), ..self }
    }

    /// The ledger with the deposit `tx_id` replaced.
    pub open spec fn set_deposit(self, tx_id: TxId, d: DepositEntry) -> Ledger {
        Ledger { deposits: self.deposits.insert(tx_id, d), ..self }
    }

    /// Every balance lies in the range of amounts.
    pub open spec fn within_limits(self) -> bool {
        forall|c: ClientId|
            #[trigger] self.accounts.contains_key(c) ==> -MAX_UNITS <= self.accounts[c].available
                <= MAX_UNITS && -MAX_UNITS <= self.accounts[c].held <= MAX_UNITS
    }

    /// The ledger is one that the engine can be in: balances in range, every
    /// retained deposit non-negative and in range, and owned by a client that
    /// has an account.
    pub open spec fn wf(self) -> bool {
        &&& self.within_limits()
        &&& forall|t: TxId| #[trigger]
            self.deposits.contains_key(t) ==> {
                &&& 0 <= self.deposits[t].amount <= MAX_UNITS
                &&& self.accounts.contains_key(self.deposits[t].client)
            }
    }
}

/// What deposit `e` contributes to the held funds of client `c`: its amount
/// while it is disputed and belongs to `c`, nothing otherwise.
pub open spec fn held_part(e: DepositEntry, c: ClientId) -> int {
    if e.client == c && e.state == DepositState::Disputed {
        e.amount
    } else {
        0
    }
}

/// The step of the sum of held contributions over deposit ids.
pub open spec fn held_adder(d: Map<TxId, DepositEntry>, c: ClientId) -> spec_fn(int, TxId) -> int {
    |acc: int, t: TxId| acc + held_part(d[t], c)
}

/// The amounts of the deposits with ids in `s` that are disputed and belong
/// to `c`, summed.
pub open spec fn held_sum(d: Map<TxId, DepositEntry>, s: Set<TxId>, c: ClientId) -> int {
    s.fold(0, held_adder(d, c))
}

impl Ledger {
    /// Every client's held funds are exactly the sum of its disputed
    /// deposits.
    pub open spec fn held_matches_disputes(self) -> bool {
        &&& self.deposits.dom().finite()
        &&& forall|c: ClientId| #[trigger]
            self.accounts.contains_key(c) ==> self.accounts[c].held == held_sum(
                self.deposits,
                self.deposits.dom(),
                c,
            )
    }
}

/// The error that rejects `tx` with `kind`.
pub open spec fn rejection(tx: Transaction, kind: ProcessingErrorKind) -> Outcome {
    Err(ProcessingError { tx_id: tx.tx_id, kind })
}

/// The amount a deposit or withdrawal moves: missing or negative amounts are
/// rejected.
pub open spec fn required_amount(tx: Transaction) -> Result<int, ProcessingErrorKind> {
    match tx.amount {
        None => Err(ProcessingErrorKind::MissingAmount),
        Some(a) => if a.value() < 0 {
            Err(ProcessingErrorKind::NegativeAmount)
        } else {
            Ok(a.value())
        },
    }
}

/// The deposit that a dispute, resolution or chargeback refers to: it must
/// exist, belong to the transaction's client and be in state `required`.
pub open spec fn disputable_deposit(l: Ledger, tx: Transaction, required: DepositState) -> Result<
    DepositEntry,
    ProcessingErrorKind,
> {
    if !l.deposits.contains_key(tx.tx_id) {
        Err(ProcessingErrorKind::UnknownTx)
    } else if l.deposits[tx.tx_id].client != tx.client {
        Err(ProcessingErrorKind::ClientMismatch)
    } else if l.deposits[tx.tx_id].state != required {
        Err(ProcessingErrorKind::IneligibleState)
    } else {
        Ok(l.deposits[tx.tx_id])
    }
}

/// A deposit: credits `available` and retains the deposit as `Confirmed`.
pub open spec fn deposit_step(l: Ledger, tx: Transaction) -> (Ledger, Outcome) {
    match required_amount(tx) {
        Err(k) => (l, rejection(tx, k)),
        Ok(a) => if l.deposits.contains_key(tx.tx_id) {
            (l, rejection(tx, ProcessingErrorKind::DuplicateTx))
        } else {
            let b = l.balance(tx.client);
            (
                l.set_balance(tx.client, Balance { available: b.available + a, ..b }).set_deposit(
                    tx.tx_id,
                    DepositEntry { client: tx.client, amount: a, state: DepositState::Confirmed },
                ),
                Ok(()),
            )
        },
    }
}

/// A withdrawal: debits `available` if it covers the amount; otherwise it is
/// refused and the ledger stays as it is.
pub open spec fn withdrawal_step(l: Ledger, tx: Transaction) -> (Ledger, Outcome) {
    match required_amount(tx) {
        Err(k) => (l, rejection(tx, k)),
        Ok(a) => {
            let b = l.balance(tx.client);
            if b.available < a {
                (l, rejection(tx, ProcessingErrorKind::InsufficientFunds))
            } else {
                (l.set_balance(tx.client, Balance { available: b.available - a, ..b }), Ok(()))
            }
        },
    }
}

/// A dispute: moves a confirmed deposit's amount from `available` to `held`.
pub open spec fn dispute_step(l: Ledger, tx: Transaction) -> (Ledger, Outcome) {
    match disputable_deposit(l, tx, DepositState::Confirmed) {
        Err(k) => (l, rejection(tx, k)),
        Ok(d) => {
            let b = l.balance(tx.client);
            (
                l.set_balance(
                    tx.client,
                    Balance { available: b.available - d.amount, held: b.held + d.amount, ..b },
                ).set_deposit(tx.tx_id, DepositEntry { state: DepositState::Disputed, ..d }),
                Ok(()),
            )
        },
    }
}

/// A resolution: moves a disputed deposit's amount back from `held` to
/// `available`.
pub open spec fn resolve_step(l: Ledger, tx: Transaction) -> (Ledger, Outcome) {
    match disputable_deposit(l, tx, DepositState::Disputed) {
        Err(k) => (l, rejection(tx, k)),
        Ok(d) => {
            let b = l.balance(tx.client);
            (
                l.set_balance(
                    tx.client,
                    Balance { available: b.available + d.amount, held: b.held - d.amount, ..b },
                ).set_deposit(tx.tx_id, DepositEntry { state: DepositState::Confirmed, ..d }),
                Ok(()),
            )
        },
    }
}

/// A chargeback: removes a disputed deposit's amount from `held` and locks
/// the account.
pub open spec fn chargeback_step(l: Ledger, tx: Transaction) -> (Ledger, Outcome) {
    match disputable_deposit(l, tx, DepositState::Disputed) {
        Err(k) => (l, rejection(tx, k)),
        Ok(d) => {
            let b = l.balance(tx.client);
            (
                l.set_balance(
                    tx.client,
                    Balance { held: b.held - d.amount, locked: true, ..b },
                ).set_deposit(tx.tx_id, DepositEntry { state: DepositState::ChargedBack, ..d }),
                Ok(()),
            )
        },
    }
}

/// What one transaction does to the ledger, and what it answers. A locked
/// account refuses every transaction.
pub open spec fn step(l: Ledger, tx: Transaction) -> (Ledger, Outcome) {
    if l.is_locked(tx.client) {
        (l, rejection(tx, ProcessingErrorKind::AccountLocked))
    } else {
        match tx.tx_type {
            TxType::Deposit => deposit_step(l, tx),
            TxType::Withdrawal => withdrawal_step(l, tx),
            TxType::Dispute => dispute_step(l, tx),
            TxType::Resolve => resolve_step(l, tx),
            TxType::Chargeback => chargeback_step(l, tx),
        }
    }
}

/// Whether the engine can process `tx` in `l` with every balance staying in
/// the range of amounts (beyond it a four-place decimal cannot hold them).
pub open spec fn step_within_limits(l: Ledger, tx: Transaction) -> bool {
    &&& tx.valid()
    &&& step(l, tx).0.within_limits()
}

/// The ledger after the transactions of `txs`, in order, starting from `l`.
pub open spec fn replay(l: Ledger, txs: Seq<Transaction>) -> Ledger
    decreases txs.len(),
{
    if txs.len() == 0 {
        l
    } else {
        replay(step(l, txs[0]).0, txs.drop_first())
    }
}

/// Whether every transaction of `txs`, in order from `l`, keeps the balances
/// in the range of amounts.
pub open spec fn replay_within_limits(l: Ledger, txs: Seq<Transaction>) -> bool
    decreases txs.len(),
{
    if txs.len() == 0 {
        true
    } else {
        step_within_limits(l, txs[0]) && replay_within_limits(step(l, txs[0]).0, txs.drop_first())
    }
}

/// What a transaction moves into or out of the total funds of client `c`:
/// the amount of a successful deposit of `c`, minus that of a successful
/// withdrawal of `c`, minus the amount of a deposit of `c` that is charged
/// back; nothing otherwise.
pub open spec fn total_change(l: Ledger, tx: Transaction, c: ClientId) -> int {
    if tx.client != c || step(l, tx).1 is Err {
        0
    } else {
        match tx.tx_type {
            TxType::Deposit => tx.amount->Some_0.value(),
            TxType::Withdrawal => -tx.amount->Some_0.value(),
            TxType::Chargeback => -l.deposits[tx.tx_id].amount,
            _ => 0,
        }
    }
}

/// The successful deposits of `c` in `txs` (run in order from `l`), minus
/// its successful withdrawals, minus its charged-back deposits.
pub open spec fn net_flow(l: Ledger, txs: Seq<Transaction>, c: ClientId) -> int
    decreases txs.len(),
{
    if txs.len() == 0 {
        0
    } else {
        total_change(l, txs[0], c) + net_flow(step(l, txs[0]).0, txs.drop_first(), c)
    }
}

/// Whether some chargeback of client `c` in `txs` (run in order from `l`)
/// succeeds.
pub open spec fn chargeback_succeeds(l: Ledger, txs: Seq<Transaction>, c: ClientId) -> bool
    decreases txs.len(),
{
    if txs.len() == 0 {
        false
    } else {
        ||| (txs[0].tx_type == TxType::Chargeback && txs[0].client == c && step(l, txs[0]).1 is Ok)
        ||| chargeback_succeeds(step(l, txs[0]).0, txs.drop_first(), c)
    }
}

} // verus!
