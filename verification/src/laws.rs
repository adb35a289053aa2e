//! Properties of the ledger model that hold across transactions: what every
//! step keeps, what one step undoes, and what it leaves untouched.

use vstd::prelude::*;

use crate::error::{decimal_digits, ProcessingErrorKind};
use crate::ledger::{
    chargeback_succeeds, held_adder, held_part, held_sum, net_flow, rejection, replay,
    replay_within_limits, step, step_within_limits, total_change, DepositEntry, DepositState,
    Ledger,
};
use crate::model::{
    decimal_units, pow10, round_half_even, ClientId, Transaction, TxId, TxType, MAX_UNITS,
};

verus! {

/// A step taken within the limits keeps the ledger one the engine can be in.
pub proof fn law_step_keeps_wf(l: Ledger, tx: Transaction)
    requires
        l.wf(),
        step_within_limits(l, tx),
    ensures
        step(l, tx).0.wf(),
{
    let l2 = step(l, tx).0;
    assert forall|t: TxId| #[trigger] l2.deposits.contains_key(t) implies 0
        <= l2.deposits[t].amount <= MAX_UNITS && l2.accounts.contains_key(
        l2.deposits[t].client,
    ) by {
        if l.deposits.contains_key(t) {
            assert(l.accounts.contains_key(l.deposits[t].client));
        }
    }
}

/// A locked account is frozen: every transaction of its client is refused
/// with `AccountLocked`, and the ledger stays as it is.
pub proof fn law_locked_account_is_frozen(l: Ledger, tx: Transaction)
    requires
        l.is_locked(tx.client),
    ensures
        step(l, tx) == (l, rejection(tx, ProcessingErrorKind::AccountLocked)),
{
}

/// Locking is permanent: a locked account stays locked whatever comes next.
pub proof fn law_lock_is_permanent(l: Ledger, tx: Transaction, c: ClientId)
    requires
        l.is_locked(c),
    ensures
        step(l, tx).0.is_locked(c),
{
}

/// Clients are isolated: a transaction leaves every other client's account
/// as it was, present or absent.
pub proof fn law_other_clients_untouched(l: Ledger, tx: Transaction, c: ClientId)
    requires
        c != tx.client,
    ensures
        step(l, tx).0.accounts.contains_key(c) == l.accounts.contains_key(c),
        l.accounts.contains_key(c) ==> step(l, tx).0.accounts[c] == l.accounts[c],
{
}

/// A refused transaction changes nothing: the row is skipped without trace.
pub proof fn law_rejection_changes_nothing(l: Ledger, tx: Transaction)
    requires
        step(l, tx).1 is Err,
    ensures
        step(l, tx).0 == l,
        step(l, tx).1->Err_0.tx_id == tx.tx_id,
{
}

/// Retained deposits are never overwritten: a transaction changes at most the
/// deposit it names, and never the owner or amount of one already retained.
pub proof fn law_deposits_never_overwritten(l: Ledger, tx: Transaction, t: TxId)
    requires
        l.deposits.contains_key(t),
    ensures
        step(l, tx).0.deposits.contains_key(t),
        step(l, tx).0.deposits[t].client == l.deposits[t].client,
        step(l, tx).0.deposits[t].amount == l.deposits[t].amount,
        t != tx.tx_id ==> step(l, tx).0.deposits[t] == l.deposits[t],
{
}

/// A deposit id can be used once: a second deposit with an id already
/// retained is refused (unless the account is locked, which refuses first).
pub proof fn law_duplicate_deposit_refused(l: Ledger, tx: Transaction)
    requires
        tx.tx_type == TxType::Deposit,
        l.deposits.contains_key(tx.tx_id),
        tx.amount matches Some(a) && a.value() >= 0,
    ensures
        step(l, tx).0 == l,
        step(l, tx).1 == rejection(
            tx,
            if l.is_locked(tx.client) {
                ProcessingErrorKind::AccountLocked
            } else {
                ProcessingErrorKind::DuplicateTx
            },
        ),
{
}

/// A successful deposit credits its amount to `available` (so to `total`)
/// and is retained as confirmed.
pub proof fn law_deposit_credits(l: Ledger, tx: Transaction)
    requires
        tx.tx_type == TxType::Deposit,
        step(l, tx).1 is Ok,
    ensures
        ({
            let (l2, _) = step(l, tx);
            let a = tx.amount->Some_0.value();
            let before = l.balance(tx.client);
            let after = l2.accounts[tx.client];
            &&& l2.accounts.contains_key(tx.client)
            &&& after.available == before.available + a
            &&& after.held == before.held
            &&& after.total() == before.total() + a
            &&& !after.locked
            &&& l2.deposits.contains_key(tx.tx_id)
            &&& l2.deposits[tx.tx_id].client == tx.client
            &&& l2.deposits[tx.tx_id].amount == a
            &&& l2.deposits[tx.tx_id].state == DepositState::Confirmed
        }),
{
}

/// A successful withdrawal debits its amount from `available` and never
/// leaves it negative.
pub proof fn law_withdrawal_debits(l: Ledger, tx: Transaction)
    requires
        tx.tx_type == TxType::Withdrawal,
        step(l, tx).1 is Ok,
    ensures
        ({
            let (l2, _) = step(l, tx);
            let a = tx.amount->Some_0.value();
            let before = l.balance(tx.client);
            let after = l2.accounts[tx.client];
            &&& l2.accounts.contains_key(tx.client)
            &&& after.available == before.available - a
            &&& after.available >= 0
            &&& after.held == before.held
            &&& after.total() == before.total() - a
            &&& l2.deposits == l.deposits
        }),
{
}

/// A dispute holds the disputed deposit's amount: `available` drops by it,
/// `held` rises by it, `total` stays the same.
pub proof fn law_dispute_holds_funds(l: Ledger, tx: Transaction)
    requires
        tx.tx_type == TxType::Dispute,
        step(l, tx).1 is Ok,
    ensures
        ({
            let (l2, _) = step(l, tx);
            let d = l.deposits[tx.tx_id];
            let before = l.balance(tx.client);
            let after = l2.accounts[tx.client];
            &&& l.deposits.contains_key(tx.tx_id)
            &&& d.client == tx.client
            &&& d.state == DepositState::Confirmed
            &&& l2.accounts.contains_key(tx.client)
            &&& after.available == before.available - d.amount
            &&& after.held == before.held + d.amount
            &&& after.total() == before.total()
            &&& after.locked == before.locked
            &&& l2.deposits[tx.tx_id].state == DepositState::Disputed
        }),
{
}

/// A chargeback withdraws the disputed amount from `held` (so from `total`)
/// and locks the account; the deposit becomes charged back.
pub proof fn law_chargeback_reverses_and_locks(l: Ledger, tx: Transaction)
    requires
        tx.tx_type == TxType::Chargeback,
        step(l, tx).1 is Ok,
    ensures
        ({
            let (l2, _) = step(l, tx);
            let d = l.deposits[tx.tx_id];
            let before = l.balance(tx.client);
            let after = l2.accounts[tx.client];
            &&& l.deposits.contains_key(tx.tx_id)
            &&& d.client == tx.client
            &&& d.state == DepositState::Disputed
            &&& l2.accounts.contains_key(tx.client)
            &&& after.available == before.available
            &&& after.held == before.held - d.amount
            &&& after.total() == before.total() - d.amount
            &&& after.locked
            &&& l2.deposits[tx.tx_id].state == DepositState::ChargedBack
        }),
{
}

/// A charged-back deposit stays charged back whatever comes next.
pub proof fn law_chargeback_is_terminal(l: Ledger, tx: Transaction, t: TxId)
    requires
        l.deposits.contains_key(t),
        l.deposits[t].state == DepositState::ChargedBack,
    ensures
        step(l, tx).0.deposits[t].state == DepositState::ChargedBack,
{
}

/// A resolution undoes the dispute before it: disputing a deposit and then
/// resolving it gives back the ledger as it was.
pub proof fn law_resolve_undoes_dispute(l: Ledger, dispute: Transaction, resolve: Transaction)
    requires
        l.wf(),
        dispute.tx_type == TxType::Dispute,
        step(l, dispute).1 is Ok,
        resolve.tx_type == TxType::Resolve,
        resolve.client == dispute.client,
        resolve.tx_id == dispute.tx_id,
    ensures
        step(step(l, dispute).0, resolve) == (l, Ok::<(), crate::error::ProcessingError>(())),
{
    let l2 = step(l, dispute).0;
    let l3 = step(l2, resolve).0;
    let t = dispute.tx_id;
    let c = dispute.client;
    assert(l.accounts.contains_key(c)) by {
        assert(l.deposits.contains_key(t));
    }
    assert(l3.accounts =~= l.accounts);
    assert(l3.deposits =~= l.deposits);
}

/// A resolution releases the disputed amount from `held` back to
/// `available`, leaving `total` as it is, and the deposit is confirmed again,
/// so it can be disputed anew.
pub proof fn law_resolve_releases_funds(l: Ledger, tx: Transaction)
    requires
        tx.tx_type == TxType::Resolve,
        step(l, tx).1 is Ok,
    ensures
        ({
            let (l2, _) = step(l, tx);
            let d = l.deposits[tx.tx_id];
            let before = l.balance(tx.client);
            let after = l2.accounts[tx.client];
            &&& l.deposits.contains_key(tx.tx_id)
            &&& d.client == tx.client
            &&& d.state == DepositState::Disputed
            &&& l2.accounts.contains_key(tx.client)
            &&& after.available == before.available + d.amount
            &&& after.held == before.held - d.amount
            &&& after.total() == before.total()
            &&& after.locked == before.locked
            &&& l2.deposits[tx.tx_id] == (DepositEntry { state: DepositState::Confirmed, ..d })
        }),
{
}

/// A deposit or withdrawal needs an amount that is not negative: without
/// one it is refused and the ledger stays as it is.
pub proof fn law_amount_required(l: Ledger, tx: Transaction)
    requires
        tx.tx_type == TxType::Deposit || tx.tx_type == TxType::Withdrawal,
        !l.is_locked(tx.client),
    ensures
        tx.amount is None ==> step(l, tx) == (l, rejection(tx, ProcessingErrorKind::MissingAmount)),
        tx.amount matches Some(a) && a.value() < 0 ==> step(l, tx) == (
            l,
            rejection(tx, ProcessingErrorKind::NegativeAmount),
        ),
{
}

/// Funds move only on a deposit's own client: a dispute, resolution or
/// chargeback by another client, or of an id that is no retained deposit,
/// is refused and changes nothing.
pub proof fn law_disputes_need_own_deposit(l: Ledger, tx: Transaction)
    requires
        tx.tx_type == TxType::Dispute || tx.tx_type == TxType::Resolve || tx.tx_type
            == TxType::Chargeback,
        !l.is_locked(tx.client),
    ensures
        !l.deposits.contains_key(tx.tx_id) ==> step(l, tx) == (
            l,
            rejection(tx, ProcessingErrorKind::UnknownTx),
        ),
        l.deposits.contains_key(tx.tx_id) && l.deposits[tx.tx_id].client != tx.client ==> step(
            l,
            tx,
        ) == (l, rejection(tx, ProcessingErrorKind::ClientMismatch)),
{
}

// --- Held funds as the sum of disputed deposits ---------------------------

proof fn lemma_held_adder_commutes(d: Map<TxId, DepositEntry>, c: ClientId)
    ensures
        vstd::set::fold::is_fun_commutative(held_adder(d, c)),
{
    let f = held_adder(d, c);
    assert forall|a1: TxId, a2: TxId, b: int| #[trigger] f(f(b, a2), a1) == f(f(b, a1), a2) by {}
}

/// Summing over one more id adds that id's contribution.
proof fn lemma_held_sum_insert(d: Map<TxId, DepositEntry>, s: Set<TxId>, t: TxId, c: ClientId)
    requires
        s.finite(),
        !s.contains(t),
    ensures
        held_sum(d, s.insert(t), c) == held_sum(d, s, c) + held_part(d[t], c),
{
    lemma_held_adder_commutes(d, c);
    vstd::set::fold::lemma_fold_insert(s, 0, held_adder(d, c), t);
}

/// Summing over a set splits off any one of its ids.
proof fn lemma_held_sum_split(d: Map<TxId, DepositEntry>, s: Set<TxId>, t: TxId, c: ClientId)
    requires
        s.finite(),
        s.contains(t),
    ensures
        held_sum(d, s, c) == held_sum(d, s.remove(t), c) + held_part(d[t], c),
{
    lemma_held_sum_insert(d, s.remove(t), t, c);
    assert(s.remove(t).insert(t) =~= s);
}

/// Two deposit maps whose contributions agree on `s` give the same sum.
proof fn lemma_held_sum_agree(
    d1: Map<TxId, DepositEntry>,
    d2: Map<TxId, DepositEntry>,
    s: Set<TxId>,
    c: ClientId,
)
    requires
        s.finite(),
        forall|t: TxId| #[trigger] s.contains(t) ==> held_part(d1[t], c) == held_part(d2[t], c),
    ensures
        held_sum(d1, s, c) == held_sum(d2, s, c),
    decreases s.len(),
{
    if s.len() == 0 {
        assert(s =~= Set::empty());
        vstd::set::fold::lemma_fold_empty(0, held_adder(d1, c));
        vstd::set::fold::lemma_fold_empty(0, held_adder(d2, c));
    } else {
        let t = s.choose();
        lemma_held_sum_split(d1, s, t, c);
        lemma_held_sum_split(d2, s, t, c);
        lemma_held_sum_agree(d1, d2, s.remove(t), c);
    }
}

/// Contributions that are all zero sum to zero.
proof fn lemma_held_sum_zero(d: Map<TxId, DepositEntry>, s: Set<TxId>, c: ClientId)
    requires
        s.finite(),
        forall|t: TxId| #[trigger] s.contains(t) ==> held_part(d[t], c) == 0,
    ensures
        held_sum(d, s, c) == 0,
    decreases s.len(),
{
    if s.len() == 0 {
        assert(s =~= Set::empty());
        vstd::set::fold::lemma_fold_empty(0, held_adder(d, c));
    } else {
        let t = s.choose();
        lemma_held_sum_split(d, s, t, c);
        lemma_held_sum_zero(d, s.remove(t), c);
    }
}

/// Non-negative contributions give a non-negative sum.
proof fn lemma_held_sum_nonneg(d: Map<TxId, DepositEntry>, s: Set<TxId>, c: ClientId)
    requires
        s.finite(),
        forall|t: TxId| #[trigger] s.contains(t) ==> held_part(d[t], c) >= 0,
    ensures
        held_sum(d, s, c) >= 0,
    decreases s.len(),
{
    if s.len() == 0 {
        assert(s =~= Set::empty());
        vstd::set::fold::lemma_fold_empty(0, held_adder(d, c));
    } else {
        let t = s.choose();
        lemma_held_sum_split(d, s, t, c);
        lemma_held_sum_nonneg(d, s.remove(t), c);
    }
}

/// A client without an account has no deposits, so nothing held.
proof fn lemma_no_account_no_held(l: Ledger, c: ClientId)
    requires
        l.wf(),
        l.deposits.dom().finite(),
        !l.accounts.contains_key(c),
    ensures
        held_sum(l.deposits, l.deposits.dom(), c) == 0,
{
    assert forall|t: TxId| #[trigger] l.deposits.dom().contains(t) implies held_part(
        l.deposits[t],
        c,
    ) == 0 by {
        assert(l.accounts.contains_key(l.deposits[t].client));
    }
    lemma_held_sum_zero(l.deposits, l.deposits.dom(), c);
}

/// Replacing the deposit `t` shifts every client's sum by the change in
/// that deposit's contribution.
proof fn lemma_held_sum_replace(l: Ledger, t: TxId, e: DepositEntry, c: ClientId)
    requires
        l.deposits.dom().finite(),
        l.deposits.contains_key(t),
    ensures
        held_sum(l.deposits.insert(t, e), l.deposits.insert(t, e).dom(), c) == held_sum(
            l.deposits,
            l.deposits.dom(),
            c,
        ) - held_part(l.deposits[t], c) + held_part(e, c),
{
    let d2 = l.deposits.insert(t, e);
    assert(d2.dom() =~= l.deposits.dom());
    lemma_held_sum_split(l.deposits, l.deposits.dom(), t, c);
    lemma_held_sum_split(d2, d2.dom(), t, c);
    assert(d2.dom().remove(t) =~= l.deposits.dom().remove(t));
    lemma_held_sum_agree(l.deposits, d2, l.deposits.dom().remove(t), c);
}

/// The empty ledger holds nothing, as it has no disputes.
pub proof fn law_empty_held_matches_disputes()
    ensures
        Ledger::empty().held_matches_disputes(),
{
}

/// Held funds are exactly the disputed deposits: every step within the
/// limits keeps each client's `held` equal to the sum of the amounts of its
/// deposits under dispute.
pub proof fn law_held_matches_disputes(l: Ledger, tx: Transaction)
    requires
        l.wf(),
        l.held_matches_disputes(),
        step_within_limits(l, tx),
    ensures
        step(l, tx).0.held_matches_disputes(),
{
    let l2 = step(l, tx).0;
    let c0 = tx.client;
    let t0 = tx.tx_id;
    if step(l, tx).1 is Err || tx.tx_type == TxType::Withdrawal {
        assert(l2.deposits == l.deposits);
        assert forall|c: ClientId| #[trigger] l2.accounts.contains_key(c) implies l2.accounts[c].held
            == held_sum(l2.deposits, l2.deposits.dom(), c) by {
            if !l.accounts.contains_key(c) {
                lemma_no_account_no_held(l, c);
            }
        }
    } else if tx.tx_type == TxType::Deposit {
        let e = l2.deposits[t0];
        assert(l2.deposits == l.deposits.insert(t0, e));
        assert(!l.deposits.contains_key(t0));
        assert(l2.deposits.dom() =~= l.deposits.dom().insert(t0));
        assert forall|c: ClientId| #[trigger] l2.accounts.contains_key(c) implies l2.accounts[c].held
            == held_sum(l2.deposits, l2.deposits.dom(), c) by {
            lemma_held_sum_insert(l2.deposits, l.deposits.dom(), t0, c);
            lemma_held_sum_agree(l2.deposits, l.deposits, l.deposits.dom(), c);
            if !l.accounts.contains_key(c) {
                lemma_no_account_no_held(l, c);
            }
        }
    } else {
        let e = l2.deposits[t0];
        assert(l.deposits.contains_key(t0));
        assert(l2.deposits == l.deposits.insert(t0, e));
        assert(l.accounts.contains_key(c0));
        assert forall|c: ClientId| #[trigger] l2.accounts.contains_key(c) implies l2.accounts[c].held
            == held_sum(l2.deposits, l2.deposits.dom(), c) by {
            lemma_held_sum_replace(l, t0, e, c);
        }
    }
}

/// Nothing is ever held below zero in a ledger whose held funds match its
/// disputes.
pub proof fn law_held_never_negative(l: Ledger, c: ClientId)
    requires
        l.wf(),
        l.held_matches_disputes(),
        l.accounts.contains_key(c),
    ensures
        l.accounts[c].held >= 0,
{
    assert forall|t: TxId| #[trigger] l.deposits.dom().contains(t) implies held_part(
        l.deposits[t],
        c,
    ) >= 0 by {}
    lemma_held_sum_nonneg(l.deposits, l.deposits.dom(), c);
}

/// Every ledger the engine can reach from a fresh start, through any stream
/// of transactions that stays within the limits, is well formed, holds for
/// each client exactly its disputed deposits, and never holds a negative
/// amount.
pub proof fn law_reachable_ledgers_are_sound(txs: Seq<Transaction>)
    requires
        replay_within_limits(Ledger::empty(), txs),
    ensures
        replay(Ledger::empty(), txs).wf(),
        replay(Ledger::empty(), txs).held_matches_disputes(),
        forall|c: ClientId| #[trigger]
            replay(Ledger::empty(), txs).accounts.contains_key(c) ==> replay(
                Ledger::empty(),
                txs,
            ).accounts[c].held >= 0,
{
    lemma_replay_sound(Ledger::empty(), txs);
    let l = replay(Ledger::empty(), txs);
    assert forall|c: ClientId| #[trigger] l.accounts.contains_key(c) implies l.accounts[c].held
        >= 0 by {
        law_held_never_negative(l, c);
    }
}

proof fn lemma_replay_sound(l: Ledger, txs: Seq<Transaction>)
    requires
        l.wf(),
        l.held_matches_disputes(),
        replay_within_limits(l, txs),
    ensures
        replay(l, txs).wf(),
        replay(l, txs).held_matches_disputes(),
    decreases txs.len(),
{
    if txs.len() > 0 {
        law_step_keeps_wf(l, txs[0]);
        law_held_matches_disputes(l, txs[0]);
        lemma_replay_sound(step(l, txs[0]).0, txs.drop_first());
    }
}

// --- Histories --------------------------------------------------------------

proof fn lemma_step_total(l: Ledger, tx: Transaction, c: ClientId)
    ensures
        step(l, tx).0.balance(c).total() == l.balance(c).total() + total_change(l, tx, c),
{
}

proof fn lemma_replay_total(l: Ledger, txs: Seq<Transaction>, c: ClientId)
    ensures
        replay(l, txs).balance(c).total() == l.balance(c).total() + net_flow(l, txs, c),
    decreases txs.len(),
{
    if txs.len() > 0 {
        lemma_step_total(l, txs[0], c);
        lemma_replay_total(step(l, txs[0]).0, txs.drop_first(), c);
    }
}

/// Funds are conserved: after any stream of transactions from a fresh
/// start, a client's total is its successful deposits minus its successful
/// withdrawals minus its charged-back deposits (and a client that never
/// appears has nothing).
pub proof fn law_total_is_net_flow(txs: Seq<Transaction>, c: ClientId)
    ensures
        replay(Ledger::empty(), txs).balance(c).total() == net_flow(Ledger::empty(), txs, c),
{
    lemma_replay_total(Ledger::empty(), txs, c);
}

proof fn lemma_step_lock(l: Ledger, tx: Transaction, c: ClientId)
    ensures
        step(l, tx).0.is_locked(c) == (l.is_locked(c) || (tx.tx_type == TxType::Chargeback
            && tx.client == c && step(l, tx).1 is Ok)),
{
}

proof fn lemma_replay_lock(l: Ledger, txs: Seq<Transaction>, c: ClientId)
    ensures
        replay(l, txs).is_locked(c) == (l.is_locked(c) || chargeback_succeeds(l, txs, c)),
    decreases txs.len(),
{
    if txs.len() > 0 {
        lemma_step_lock(l, txs[0], c);
        lemma_replay_lock(step(l, txs[0]).0, txs.drop_first(), c);
    }
}

/// An account is locked exactly when a chargeback of its client has
/// succeeded earlier in the stream.
pub proof fn law_locked_iff_chargeback(txs: Seq<Transaction>, c: ClientId)
    ensures
        replay(Ledger::empty(), txs).is_locked(c) == chargeback_succeeds(Ledger::empty(), txs, c),
{
    lemma_replay_lock(Ledger::empty(), txs, c);
}

/// Transactions of different clients naming different ids are independent:
/// in either order each gets the same answer, and the ledger ends the same.
pub proof fn law_independent_transactions_commute(l: Ledger, t1: Transaction, t2: Transaction)
    requires
        t1.client != t2.client,
        t1.tx_id != t2.tx_id,
    ensures
        step(step(l, t1).0, t2).1 == step(l, t2).1,
        step(step(l, t2).0, t1).1 == step(l, t1).1,
        step(step(l, t1).0, t2).0 == step(step(l, t2).0, t1).0,
{
    let a = step(step(l, t1).0, t2).0;
    let b = step(step(l, t2).0, t1).0;
    assert(a.accounts =~= b.accounts);
    assert(a.deposits =~= b.deposits);
}

// --- When each kind of transaction succeeds ---------------------------------

/// A deposit succeeds exactly when the client is unlocked, the amount is
/// present and not negative, and its id is not yet retained. Nothing about
/// the client's balances can refuse it.
pub proof fn law_deposit_succeeds_iff(l: Ledger, tx: Transaction)
    requires
        tx.tx_type == TxType::Deposit,
    ensures
        step(l, tx).1 is Ok <==> (!l.is_locked(tx.client) && tx.amount is Some
            && tx.amount->Some_0.value() >= 0 && !l.deposits.contains_key(tx.tx_id)),
{
}

/// A withdrawal succeeds exactly when the client is unlocked and the amount
/// is present, not negative, and at most the available balance (a client
/// without an account has nothing available). Withdrawing the whole
/// available balance succeeds.
pub proof fn law_withdrawal_succeeds_iff(l: Ledger, tx: Transaction)
    requires
        tx.tx_type == TxType::Withdrawal,
    ensures
        step(l, tx).1 is Ok <==> (!l.is_locked(tx.client) && tx.amount is Some && 0
            <= tx.amount->Some_0.value() && tx.amount->Some_0.value() <= (if l.accounts.contains_key(
            tx.client,
        ) {
            l.accounts[tx.client].available
        } else {
            0
        })),
{
}

/// A dispute succeeds exactly when the client is unlocked and the id names
/// a retained deposit of that client that is confirmed, whatever the
/// client's balances.
pub proof fn law_dispute_succeeds_iff(l: Ledger, tx: Transaction)
    requires
        tx.tx_type == TxType::Dispute,
    ensures
        step(l, tx).1 is Ok <==> (!l.is_locked(tx.client) && l.deposits.contains_key(tx.tx_id)
            && l.deposits[tx.tx_id].client == tx.client && l.deposits[tx.tx_id].state
            == DepositState::Confirmed),
{
}

/// A resolution succeeds exactly when the client is unlocked and the id
/// names a retained deposit of that client that is under dispute, whatever
/// the client's balances.
pub proof fn law_resolve_succeeds_iff(l: Ledger, tx: Transaction)
    requires
        tx.tx_type == TxType::Resolve,
    ensures
        step(l, tx).1 is Ok <==> (!l.is_locked(tx.client) && l.deposits.contains_key(tx.tx_id)
            && l.deposits[tx.tx_id].client == tx.client && l.deposits[tx.tx_id].state
            == DepositState::Disputed),
{
}

/// A chargeback succeeds exactly when the client is unlocked and the id
/// names a retained deposit of that client that is under dispute, whatever
/// the client's balances (available may be negative).
pub proof fn law_chargeback_succeeds_iff(l: Ledger, tx: Transaction)
    requires
        tx.tx_type == TxType::Chargeback,
    ensures
        step(l, tx).1 is Ok <==> (!l.is_locked(tx.client) && l.deposits.contains_key(tx.tx_id)
            && l.deposits[tx.tx_id].client == tx.client && l.deposits[tx.tx_id].state
            == DepositState::Disputed),
{
}

// --- Converting decimals to amounts --------------------------------------------

proof fn lemma_pow10_positive(n: nat)
    ensures
        pow10(n) >= 1,
    decreases n,
{
    if n > 0 {
        lemma_pow10_positive((n - 1) as nat);
    }
}

proof fn lemma_pow10_add(a: nat, b: nat)
    ensures
        pow10(a + b) == pow10(a) * pow10(b),
    decreases a,
{
    if a > 0 {
        lemma_pow10_add((a - 1) as nat, b);
        assert(pow10(a + b) == 10 * pow10((a - 1 + b) as nat));
        assert(10 * (pow10((a - 1) as nat) * pow10(b)) == (10 * pow10((a - 1) as nat)) * pow10(b))
            by (nonlinear_arith);
    }
}

/// A decimal with at most four places converts exactly: its amount in
/// ten-thousandths, scaled by `10^scale`, is the mantissa scaled by `10^4`.
pub proof fn law_four_place_decimals_convert_exactly(mantissa: int, scale: nat)
    requires
        scale <= 4,
    ensures
        decimal_units(mantissa, scale) * pow10(scale) == mantissa * 10000,
{
    lemma_pow10_add((4 - scale) as nat, scale);
    assert(pow10(4) == 10000) by {
        reveal_with_fuel(pow10, 5);
    }
    let p = pow10((4 - scale) as nat);
    let q = pow10(scale);
    assert(mantissa * p * q == mantissa * (p * q)) by (nonlinear_arith);
}

proof fn lemma_round_nat_nearest(n: int, d: int)
    requires
        n >= 0,
        d >= 1,
    ensures
        2 * (round_half_even(n, d) * d - n) <= d,
        2 * (n - round_half_even(n, d) * d) <= d,
{
    let q = n / d;
    let r = n % d;
    vstd::arithmetic::div_mod::lemma_fundamental_div_mod(n, d);
    vstd::arithmetic::div_mod::lemma_mod_pos_bound(n, d);
    assert((q + 1) * d == q * d + d) by (nonlinear_arith);
    assert(d * q == q * d) by (nonlinear_arith);
}

/// Converting a decimal with more than four places rounds to the nearest
/// four-place amount: the result differs from the exact value by at most
/// half a ten-thousandth.
pub proof fn law_rounding_is_nearest(mantissa: int, scale: nat)
    requires
        scale > 4,
    ensures
        2 * (decimal_units(mantissa, scale) * pow10((scale - 4) as nat) - mantissa) <= pow10(
            (scale - 4) as nat,
        ),
        2 * (mantissa - decimal_units(mantissa, scale) * pow10((scale - 4) as nat)) <= pow10(
            (scale - 4) as nat,
        ),
{
    let d = pow10((scale - 4) as nat);
    lemma_pow10_positive((scale - 4) as nat);
    if mantissa >= 0 {
        lemma_round_nat_nearest(mantissa, d);
    } else {
        lemma_round_nat_nearest(-mantissa, d);
        let k = round_half_even(-mantissa, d);
        assert(decimal_units(mantissa, scale) == -k);
        assert((-k) * d == -(k * d)) by (nonlinear_arith);
    }
}

/// Why an unlocked client's transaction is refused: a withdrawal beyond the
/// available balance for insufficient funds, and a dispute, resolution or
/// chargeback of its own deposit in the wrong state as ineligible.
pub proof fn law_refusal_reasons(l: Ledger, tx: Transaction)
    requires
        !l.is_locked(tx.client),
    ensures
        tx.tx_type == TxType::Withdrawal && tx.amount is Some && tx.amount->Some_0.value() >= 0
            && tx.amount->Some_0.value() > l.balance(tx.client).available ==> step(l, tx).1
            == rejection(tx, ProcessingErrorKind::InsufficientFunds),
        tx.tx_type == TxType::Dispute && l.deposits.contains_key(tx.tx_id)
            && l.deposits[tx.tx_id].client == tx.client && l.deposits[tx.tx_id].state
            != DepositState::Confirmed ==> step(l, tx).1 == rejection(
            tx,
            ProcessingErrorKind::IneligibleState,
        ),
        (tx.tx_type == TxType::Resolve || tx.tx_type == TxType::Chargeback) && l.deposits.contains_key(
            tx.tx_id,
        ) && l.deposits[tx.tx_id].client == tx.client && l.deposits[tx.tx_id].state
            != DepositState::Disputed ==> step(l, tx).1 == rejection(
            tx,
            ProcessingErrorKind::IneligibleState,
        ),
{
}

proof fn lemma_digit_char_value(d: nat)
    requires
        d < 10,
    ensures
        crate::error::digit_char(d) as int - '0' as int == d,
        '0' <= crate::error::digit_char(d) <= '9',
{
    assert('0' as int == 48);
    if d == 0 {
    } else if d == 1 {
        assert('1' as int == 49);
    } else if d == 2 {
        assert('2' as int == 50);
    } else if d == 3 {
        assert('3' as int == 51);
    } else if d == 4 {
        assert('4' as int == 52);
    } else if d == 5 {
        assert('5' as int == 53);
    } else if d == 6 {
        assert('6' as int == 54);
    } else if d == 7 {
        assert('7' as int == 55);
    } else if d == 8 {
        assert('8' as int == 56);
    } else {
        assert('9' as int == 57);
    }
}

/// The number that a sequence of decimal digits spells, read from the left.
pub open spec fn digits_value(s: Seq<char>) -> int
    decreases s.len(),
{
    if s.len() == 0 {
        0
    } else {
        digits_value(s.drop_last()) * 10 + (s.last() as int - '0' as int)
    }
}

/// The digits of a report spell the transaction id: read back as a decimal
/// number they give `n`, every one is a digit, and the first is not `0`
/// unless `n` is zero.
pub proof fn law_decimal_digits_spell_the_number(n: nat)
    ensures
        digits_value(decimal_digits(n)) == n,
        decimal_digits(n).len() >= 1,
        forall|i: int|
            0 <= i < decimal_digits(n).len() ==> '0' <= #[trigger] decimal_digits(n)[i] <= '9',
        n > 0 ==> decimal_digits(n)[0] != '0',
    decreases n,
{
    if n >= 10 {
        law_decimal_digits_spell_the_number(n / 10);
        lemma_digit_char_value(n % 10);
        let s = decimal_digits(n);
        assert(s.drop_last() =~= decimal_digits(n / 10));
        assert(s.last() == crate::error::digit_char(n % 10));
        assert(digits_value(s) == digits_value(s.drop_last()) * 10 + (s.last() as int - '0' as int));
        assert(digits_value(s) == (n / 10) * 10 + n % 10);
        assert(s[0] == decimal_digits(n / 10)[0]);
        assert forall|i: int| 0 <= i < s.len() implies '0' <= #[trigger] s[i] <= '9' by {
            if i < s.len() - 1 {
                assert(s[i] == decimal_digits(n / 10)[i]);
            }
        }
    } else {
        lemma_digit_char_value(n);
        let s = decimal_digits(n);
        assert(s.drop_last() =~= Seq::<char>::empty());
        assert(digits_value(s.drop_last()) == 0);
        assert(s.last() == crate::error::digit_char(n));
    }
}
} // verus!
