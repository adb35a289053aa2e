//! Errors produced while processing a single transaction.
//!
//! Every error is scoped to the offending transaction (`tx_id`) so callers can
//! report exactly which row was skipped. These errors are recoverable: the
//! engine leaves the row out and continues with the next one.

use vstd::prelude::*;

use crate::model::TxId;
use vstd::string::StringExecFns;

verus! {

/// The category of a [`ProcessingError`].
#[derive(Clone, Copy, Debug, PartialEq, Eq, Structural)]
pub enum ProcessingErrorKind {
    /// A deposit/withdrawal carried no amount.
    MissingAmount,
    /// A deposit/withdrawal carried a negative amount.
    NegativeAmount,
    /// The account is frozen after a chargeback.
    AccountLocked,
    /// A deposit reused an existing transaction id.
    DuplicateTx,
    /// A withdrawal exceeded the available balance.
    InsufficientFunds,
    /// A dispute/resolve/chargeback referenced an unknown transaction.
    UnknownTx,
    /// The referenced transaction belongs to a different client.
    ClientMismatch,
    /// The referenced transaction is not in the state the operation requires.
    IneligibleState,
}

/// An error from processing a single transaction (the row is skipped).
#[derive(Clone, Copy, Debug, PartialEq, Eq, Structural)]
pub struct ProcessingError {
    /// The transaction the error refers to.
    pub tx_id: TxId,
    /// What went wrong.
    pub kind: ProcessingErrorKind,
}

impl ProcessingError {
    /// Builds an error for the given transaction and kind.
    pub fn new(tx_id: TxId, kind: ProcessingErrorKind) -> (r: Self)
        ensures
            r.tx_id == tx_id,
            r.kind == kind,
    {
        Self { tx_id, kind }
    }
}

impl ProcessingErrorKind {
    /// The human-readable reason for this kind of error.
    pub open spec fn spec_reason(self) -> Seq<char> {
        match self {
            ProcessingErrorKind::MissingAmount => "missing amount"@,
            ProcessingErrorKind::NegativeAmount => "negative amount"@,
            ProcessingErrorKind::AccountLocked => "account is locked"@,
            ProcessingErrorKind::DuplicateTx => "duplicate transaction id"@,
            ProcessingErrorKind::InsufficientFunds => "insufficient funds"@,
            ProcessingErrorKind::UnknownTx => "unknown transaction"@,
            ProcessingErrorKind::ClientMismatch => "transaction belongs to another client"@,
            ProcessingErrorKind::IneligibleState => "transaction is in an ineligible state"@,
        }
    }

    /// The human-readable reason for this kind of error, as shown after
    /// `transaction <id>: ` in a report.
    pub fn reason(&self) -> (r: &'static str)
        ensures
            r@ == self.spec_reason(),
    {
        match self {
            ProcessingErrorKind::MissingAmount => "missing amount",
            ProcessingErrorKind::NegativeAmount => "negative amount",
            ProcessingErrorKind::AccountLocked => "account is locked",
            ProcessingErrorKind::DuplicateTx => "duplicate transaction id",
            ProcessingErrorKind::InsufficientFunds => "insufficient funds",
            ProcessingErrorKind::UnknownTx => "unknown transaction",
            ProcessingErrorKind::ClientMismatch => "transaction belongs to another client",
            ProcessingErrorKind::IneligibleState => "transaction is in an ineligible state",
        }
    }
}

/// The character of the decimal digit `d` (for `d < 10`).
pub open spec fn digit_char(d: nat) -> char {
    if d == 0 {
        '0'
    } else if d == 1 {
        '1'
    } else if d == 2 {
        '2'
    } else if d == 3 {
        '3'
    } else if d == 4 {
        '4'
    } else if d == 5 {
        '5'
    } else if d == 6 {
        '6'
    } else if d == 7 {
        '7'
    } else if d == 8 {
        '8'
    } else {
        '9'
    }
}

/// The decimal digits of `n`, most significant first, without leading zeros
/// (`0` is the single digit `0`).
pub open spec fn decimal_digits(n: nat) -> Seq<char>
    decreases n,
{
    if n < 10 {
        seq![digit_char(n)]
    } else {
        decimal_digits(n / 10) + seq![digit_char(n % 10)]
    }
}

/// Appends the decimal digits of `n` to `s`.
fn append_decimal(s: &mut String, n: u32)
    ensures
        final(s)@ == old(s)@ + decimal_digits(n as nat),
    decreases n,
{
    if n >= 10 {
        append_decimal(s, n / 10);
    }
    let d = n % 10;
    proof {
        reveal_strlit("0");
        reveal_strlit("1");
        reveal_strlit("2");
        reveal_strlit("3");
        reveal_strlit("4");
        reveal_strlit("5");
        reveal_strlit("6");
        reveal_strlit("7");
        reveal_strlit("8");
        reveal_strlit("9");
    }
    let text = if d == 0 {
        "0"
    } else if d == 1 {
        "1"
    } else if d == 2 {
        "2"
    } else if d == 3 {
        "3"
    } else if d == 4 {
        "4"
    } else if d == 5 {
        "5"
    } else if d == 6 {
        "6"
    } else if d == 7 {
        "7"
    } else if d == 8 {
        "8"
    } else {
        "9"
    };
    assert(text@ == seq![digit_char(d as nat)]);
    s.append(text);
    proof {
        if n >= 10 {
            assert(decimal_digits(n as nat) == decimal_digits((n / 10) as nat) + seq![
                digit_char((n % 10) as nat),
            ]);
        }
    }
}

impl ProcessingError {
    /// The report of this error: `transaction <id>: <reason>`.
    pub fn message(&self) -> (r: String)
        ensures
            r@ == "transaction "@ + decimal_digits(self.tx_id as nat) + ": "@
                + self.kind.spec_reason(),
    {
        let mut s = String::new();
        s.append("transaction ");
        append_decimal(&mut s, self.tx_id);
        s.append(": ");
        s.append(self.kind.reason());
        s
    }
}

} // verus!
