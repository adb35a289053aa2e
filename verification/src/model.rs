//! Core domain types: identifiers, transaction kinds and fixed-point amounts.

use vstd::prelude::*;

verus! {

/// Clients are represented by `u16` integers.
pub type ClientId = u16;

/// Transaction IDs are globally unique `u32` values.
pub type TxId = u32;

/// The number of decimal places every amount carries.
pub const DECIMAL_PLACES: u32 = 4;

/// The largest magnitude of a decimal mantissa (96 bits).
pub const MAX_MANTISSA: i128 = 79228162514264337593543950335;

/// The largest decimal scale.
pub const MAX_SCALE: u32 = 28;

/// The largest magnitude of an amount, in ten-thousandths: a four-place
/// decimal whose mantissa fits in 96 bits.
pub const MAX_UNITS: i128 = 79228162514264337593543950335;

/// `10^n`.
pub open spec fn pow10(n: nat) -> int
    decreases n,
{
    if n == 0 {
        1
    } else {
        10 * pow10((n - 1) as nat)
    }
}

/// Rounds the non-negative `n / d` to an integer, a midpoint going to the
/// even neighbour.
pub open spec fn round_half_even_nat(n: int, d: int) -> int {
    let q = n / d;
    let r = n % d;
    if 2 * r > d || (2 * r == d && q % 2 == 1) {
        q + 1
    } else {
        q
    }
}

/// Rounds `m / d` (for `d > 0`) to an integer, a midpoint going to the even
/// neighbour; the sign follows `m`.
pub open spec fn round_half_even(m: int, d: int) -> int {
    if m < 0 {
        -round_half_even_nat(-m, d)
    } else {
        round_half_even_nat(m, d)
    }
}

/// The ten-thousandths that the decimal `mantissa / 10^scale` comes to once
/// it is rounded to four places.
pub open spec fn decimal_units(mantissa: int, scale: nat) -> int {
    if scale <= 4 {
        mantissa * pow10((4 - scale) as nat)
    } else {
        round_half_even(mantissa, pow10((scale - 4) as nat))
    }
}

/// Whether `mantissa / 10^scale` is a decimal that can be represented at all.
pub open spec fn is_decimal(mantissa: int, scale: nat) -> bool {
    &&& scale <= MAX_SCALE
    &&& -MAX_MANTISSA <= mantissa <= MAX_MANTISSA
}

/// A monetary amount: a decimal with exactly four places, held as a count of
/// ten-thousandths.
#[derive(Clone, Copy, Debug, PartialEq, Eq, Structural)]
pub struct Amount {
    /// The amount in units of `0.0001`.
    pub units: i128,
}

impl Amount {
    /// The amount as a mathematical integer of ten-thousandths.
    pub open spec fn value(self) -> int {
        self.units as int
    }

    /// Whether the amount lies in the range of four-place decimals.
    pub open spec fn valid(self) -> bool {
        -MAX_UNITS <= self.units <= MAX_UNITS
    }

    /// The zero amount.
    pub fn zero() -> (r: Amount)
        ensures
            r.value() == 0,
    {
        Amount { units: 0 }
    }

    /// Whether the amount is below zero.
    pub fn is_sign_negative(&self) -> (r: bool)
        ensures
            r == (self.value() < 0),
    {
        self.units < 0
    }

    /// Converts the decimal `mantissa / 10^scale` to an amount, rounding it to
    /// four places (a midpoint goes to the even neighbour). `None` when the
    /// parts are no decimal, or when the rounded value lies beyond the range
    /// of four-place amounts.
    pub fn from_decimal(mantissa: i128, scale: u32) -> (r: Option<Amount>)
        ensures
            r is Some <==> (is_decimal(mantissa as int, scale as nat) && -MAX_UNITS
                <= decimal_units(mantissa as int, scale as nat) <= MAX_UNITS),
            r matches Some(a) ==> a.value() == decimal_units(mantissa as int, scale as nat)
                && a.valid(),
            r is Some && scale <= 4 ==> r->Some_0.value() * pow10(scale as nat) == mantissa
                * 10000,
            r is Some && scale > 4 ==> 2 * (r->Some_0.value() * pow10((scale - 4) as nat)
                - mantissa) <= pow10((scale - 4) as nat),
            r is Some && scale > 4 ==> 2 * (mantissa - r->Some_0.value() * pow10(
                (scale - 4) as nat,
            )) <= pow10((scale - 4) as nat),
    {
        if scale > MAX_SCALE || mantissa > MAX_MANTISSA || mantissa < -MAX_MANTISSA {
            return None;
        }
        proof {
            if scale <= 4 {
                crate::laws::law_four_place_decimals_convert_exactly(mantissa as int, scale as nat);
            } else {
                crate::laws::law_rounding_is_nearest(mantissa as int, scale as nat);
            }
        }
        let (m, s) = decimal_round_dp(mantissa, scale, DECIMAL_PLACES);
        proof {
            reveal_with_fuel(pow10, 5);
        }
        assert(s <= 4);
        let factor: i128 = if s == 0 {
            10000
        } else if s == 1 {
            1000
        } else if s == 2 {
            100
        } else if s == 3 {
            10
        } else {
            1
        };
        assert(factor == pow10((4 - s) as nat));
        assert(-MAX_MANTISSA <= m <= MAX_MANTISSA);
        assert(-MAX_MANTISSA * 10000 <= m * factor <= MAX_MANTISSA * 10000) by (nonlinear_arith)
            requires
                -MAX_MANTISSA <= m <= MAX_MANTISSA,
                1 <= factor <= 10000,
        ;
        let units = m * factor;
        assert(units == decimal_units(mantissa as int, scale as nat)) by {
            if scale <= 4 {
                assert(m == mantissa && s == scale);
            } else {
                assert(s == 4 && factor == 1);
            }
        }
        if units > MAX_UNITS || units < -MAX_UNITS {
            None
        } else {
            Some(Amount { units })
        }
    }
}

/// Rounds the decimal `mantissa / 10^scale` to `dp` places with
/// `rust_decimal::Decimal::round_dp` and hands back the mantissa and scale of
/// the result. Claimed of the outside code: a value with at most `dp` places
/// comes back unchanged; otherwise the result has scale `dp` and its mantissa
/// is `mantissa / 10^(scale - dp)` rounded to the nearest integer, a midpoint
/// going to the even neighbour (the crate's `MidpointNearestEven`), with the
/// sign of `mantissa`.
#[verifier::external_body]
fn decimal_round_dp(mantissa: i128, scale: u32, dp: u32) -> (r: (i128, u32))
    requires
        is_decimal(mantissa as int, scale as nat),
    ensures
        scale <= dp ==> r == (mantissa, scale),
        dp < scale ==> r.1 == dp && r.0 == round_half_even(
            mantissa as int,
            pow10((scale - dp) as nat),
        ),
        -MAX_MANTISSA <= r.0 <= MAX_MANTISSA,
{
    let d = rust_decimal::Decimal::from_i128_with_scale(mantissa, scale).round_dp(dp);
    (d.mantissa(), d.scale())
}

/// The five kinds of transactions the engine handles.
#[derive(Clone, Copy, Debug, PartialEq, Eq, Structural)]
pub enum TxType {
    /// Credit to the client's account (increases available and total).
    Deposit,
    /// Debit from the client's account (decreases available and total).
    Withdrawal,
    /// Claim that a referenced deposit was erroneous; holds its funds.
    Dispute,
    /// Resolution of a dispute; releases the held funds back to available.
    Resolve,
    /// Final reversal of a disputed deposit; withdraws the held funds and
    /// locks the account.
    Chargeback,
}

/// One parsed transaction, as the engine consumes it.
#[derive(Clone, Copy, Debug, PartialEq, Eq, Structural)]
pub struct Transaction {
    /// What the transaction does.
    pub tx_type: TxType,
    /// The client it belongs to.
    pub client: ClientId,
    /// Its id (for deposits and withdrawals its own; for disputes,
    /// resolutions and chargebacks that of the deposit it refers to).
    pub tx_id: TxId,
    /// The amount, present for deposits and withdrawals.
    pub amount: Option<Amount>,
}

impl Transaction {
    /// Builds a transaction from its fields.
    pub fn new(tx_type: TxType, client: ClientId, tx_id: TxId, amount: Option<Amount>) -> (r:
        Transaction)
        ensures
            r == (Transaction { tx_type, client, tx_id, amount }),
    {
        Transaction { tx_type, client, tx_id, amount }
    }

    /// Whether the amount, where there is one, is a valid amount.
    pub open spec fn valid(self) -> bool {
        self.amount matches Some(a) ==> a.valid()
    }
}

} // verus!
