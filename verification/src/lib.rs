//! Names for arbitrarily large natural numbers.
//!
//! Two naming systems are offered. The Conway-Wechsler system continues the
//! familiar "million, billion, trillion" with Latin prefixes, in the short
//! scale, the long scale with "milliard", or the older British long scale
//! with "thousand million". Knuth's -yllion system groups digits by four and
//! gives a new name to every squaring: hundred, myriad, myllion, byllion.
//!
//! Each system names a number from its decimal digits (`full_name`) and a
//! power of ten from the decimal digits of its exponent (`power_of_ten`).

use vstd::prelude::*;

pub mod biguint;
pub mod common;
pub mod conway_wechsler;
pub mod digits;
pub mod knuth_yllion;
mod yllion_powers;

verus! {

/// Why a digit string could not be named.
#[derive(Debug, Clone, Copy, PartialEq, Eq, Structural)]
pub enum ParseError {
    /// The input was the empty string.
    Empty,
    /// The input needs a Latin prefix beyond the 999 that have a name.
    InputTooLarge,
    /// A state was reached that valid input cannot lead to.
    InternalError,
    /// The input holds a character other than `0`..`9`.
    InvalidDigit,
}

/// What a namer returned, with the name as a sequence of characters.
pub open spec fn outcome(r: Result<String, ParseError>) -> Result<Seq<char>, ParseError> {
    match r {
        Ok(name) => Ok(name@),
        Err(e) => Err(e),
    }
}

} // verus!
