//! Fixed-point decimal arithmetic with 18 fractional digits.
//!
//! A [`Decimal`] stores a non-negative value as `atomics / 10^18` in a
//! `u128`, the representation the surrounding Cosmos ecosystem uses for
//! on-chain rates.  All operations are checked and round down; the wide
//! (256-bit) multiply-then-divide that several of them need is delegated to
//! the `cosmwasm-std` math library through one trusted wrapper.
use vstd::prelude::*;

verus! {

/// Number of atomic units in one whole unit: a decimal has 18 fractional digits.
pub const DECIMAL_FRACTIONAL: u128 = 1_000_000_000_000_000_000;

/// Relies on `cosmwasm_std::Uint128::checked_multiply_ratio`: it returns
/// `a * b / c` floored, computed through a 256-bit intermediate, and an error
/// when `c` is zero or the quotient does not fit in a `u128`.
#[verifier::external_body]
pub(crate) fn muldiv(a: u128, b: u128, c: u128) -> (r: Option<u128>)
    ensures
        c == 0 ==> r is None,
        c != 0 && a * b / (c as int) <= u128::MAX ==> r == Some((a * b / (c as int)) as u128),
        c != 0 && a * b / (c as int) > u128::MAX ==> r is None,
{
    match cosmwasm_std::Uint128::new(a).checked_multiply_ratio(b, c) {
        Ok(v) => Some(v.u128()),
        Err(_) => None,
    }
}

/// A non-negative fixed-point decimal: the represented value is
/// `atomics / 10^18`.  The view of a `Decimal` is its atomics as an `int`.
#[derive(Clone, Copy, Debug, PartialEq, Eq, Structural)]
pub struct Decimal {
    atomics: u128,
}

impl View for Decimal {
    type V = int;

    closed spec fn view(&self) -> int {
        self.atomics as int
    }
}

/// The view of a decimal is its `u128` atomics, so it stays in range.
pub broadcast proof fn lemma_decimal_bounds(d: Decimal)
    ensures
        0 <= #[trigger] d@ <= u128::MAX,
{
}

impl Decimal {
    /// The decimal with the given atomic representation.
    pub fn raw(atomics: u128) -> (r: Decimal)
        ensures
            r@ == atomics,
    {
        Decimal { atomics }
    }

    /// Zero.
    pub fn zero() -> (r: Decimal)
        ensures
            r@ == 0,
    {
        Decimal { atomics: 0 }
    }

    /// One, i.e. `10^18` atomics.
    pub fn one() -> (r: Decimal)
        ensures
            r@ == DECIMAL_FRACTIONAL,
    {
        Decimal { atomics: DECIMAL_FRACTIONAL }
    }

    /// The atomic representation.
    pub fn atomics(&self) -> (r: u128)
        ensures
            r == self@,
    {
        self.atomics
    }

    pub fn is_zero(&self) -> (r: bool)
        ensures
            r == (self@ == 0),
    {
        self.atomics == 0
    }

    /// `numerator / denominator` as a decimal, floored to 18 fractional
    /// digits; `None` when the denominator is zero or the result overflows.
    pub fn checked_from_ratio(numerator: u128, denominator: u128) -> (r: Option<Decimal>)
        ensures
            denominator == 0 ==> r is None,
            denominator != 0 && numerator * DECIMAL_FRACTIONAL / (denominator as int) <= u128::MAX
                ==> (r matches Some(d) && d@ == numerator * DECIMAL_FRACTIONAL / (denominator as int)),
            denominator != 0 && numerator * DECIMAL_FRACTIONAL / (denominator as int) > u128::MAX
                ==> r is None,
    {
        match muldiv(numerator, DECIMAL_FRACTIONAL, denominator) {
            Some(atomics) => Some(Decimal { atomics }),
            None => None,
        }
    }

    /// Checked addition.
    pub fn checked_add(self, other: Decimal) -> (r: Option<Decimal>)
        ensures
            self@ + other@ <= u128::MAX ==> (r matches Some(d) && d@ == self@ + other@),
            self@ + other@ > u128::MAX ==> r is None,
    {
        match self.atomics.checked_add(other.atomics) {
            Some(atomics) => Some(Decimal { atomics }),
            None => None,
        }
    }

    /// Checked subtraction; `None` when the result would be negative.
    pub fn checked_sub(self, other: Decimal) -> (r: Option<Decimal>)
        ensures
            self@ >= other@ ==> (r matches Some(d) && d@ == self@ - other@),
            self@ < other@ ==> r is None,
    {
        match self.atomics.checked_sub(other.atomics) {
            Some(atomics) => Some(Decimal { atomics }),
            None => None,
        }
    }

    /// Checked decimal multiplication, floored to 18 fractional digits.
    pub fn checked_mul(self, other: Decimal) -> (r: Option<Decimal>)
        ensures
            self@ * other@ / (DECIMAL_FRACTIONAL as int) <= u128::MAX
                ==> (r matches Some(d) && d@ == self@ * other@ / (DECIMAL_FRACTIONAL as int)),
            self@ * other@ / (DECIMAL_FRACTIONAL as int) > u128::MAX ==> r is None,
    {
        match muldiv(self.atomics, other.atomics, DECIMAL_FRACTIONAL) {
            Some(atomics) => Some(Decimal { atomics }),
            None => None,
        }
    }

    /// Checked division by another decimal.
    pub fn checked_div(self, other: Decimal) -> (r: Option<Decimal>)
        ensures
            other@ == 0 ==> r is None,
            other@ != 0 && self@ * DECIMAL_FRACTIONAL / other@ <= u128::MAX
                ==> (r matches Some(d) && d@ == self@ * DECIMAL_FRACTIONAL / other@),
            other@ != 0 && self@ * DECIMAL_FRACTIONAL / other@ > u128::MAX ==> r is None,
    {
        match muldiv(self.atomics, DECIMAL_FRACTIONAL, other.atomics) {
            Some(atomics) => Some(Decimal { atomics }),
            None => None,
        }
    }

    /// Multiplies by an integer amount and floors to an integer, as the
    /// chain's `amount * rate` does.
    pub fn checked_mul_uint(self, rhs: u128) -> (r: Option<u128>)
        ensures
            self@ * rhs / (DECIMAL_FRACTIONAL as int) <= u128::MAX
                ==> r == Some((self@ * rhs / (DECIMAL_FRACTIONAL as int)) as u128),
            self@ * rhs / (DECIMAL_FRACTIONAL as int) > u128::MAX ==> r is None,
    {
        let r = muldiv(rhs, self.atomics, DECIMAL_FRACTIONAL);
        proof {
            vstd::arithmetic::mul::lemma_mul_is_commutative(self@, rhs as int);
        }
        r
    }

    /// Divides the decimal by an integer, flooring at atomic granularity.
    pub fn div_uint(self, rhs: u128) -> (r: Decimal)
        requires
            rhs != 0,
        ensures
            r@ == self@ / (rhs as int),
    {
        Decimal { atomics: self.atomics / rhs }
    }

    /// The integer part of the decimal.
    pub fn to_uint_floor(self) -> (r: u128)
        ensures
            r == self@ / (DECIMAL_FRACTIONAL as int),
    {
        self.atomics / DECIMAL_FRACTIONAL
    }

    pub fn lt(&self, other: &Decimal) -> (r: bool)
        ensures
            r == (self@ < other@),
    {
        self.atomics < other.atomics
    }

    pub fn le(&self, other: &Decimal) -> (r: bool)
        ensures
            r == (self@ <= other@),
    {
        self.atomics <= other.atomics
    }

    /// The larger of the two decimals.
    pub fn max(self, other: Decimal) -> (r: Decimal)
        ensures
            r@ == if self@ >= other@ { self@ } else { other@ },
    {
        if self.atomics >= other.atomics {
            self
        } else {
            other
        }
    }
}

} // verus!
