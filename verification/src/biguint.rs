//! Arbitrary-precision naturals, as `num_bigint` provides them.
//!
//! The exponent of a power of ten may be far larger than any machine word,
//! so the power-of-ten namers do their arithmetic on `BigUint`. Verus does not
//! look inside that type: this module names the number a `BigUint` holds and
//! states, for each operation the namers use, what it does to that number.
//! None of these statements is proved here; each is taken from the source of
//! `num_bigint` and `num_traits`.

use vstd::prelude::*;
use num_bigint::BigUint;
use num_bigint::ParseBigIntError;
use num_traits::cast::ToPrimitive;
use num_traits::identities::One;
use num_traits::identities::Zero;
use std::str::FromStr;
use crate::digits::all_digits;
use crate::digits::decimal_value;

verus! {

/// `num_bigint::BigUint`, opaque to the verifier.
#[verifier::external_type_specification]
#[verifier::external_body]
pub struct ExBigUint(num_bigint::BigUint);

/// `num_bigint::ParseBigIntError`, opaque to the verifier.
#[verifier::external_type_specification]
#[verifier::external_body]
pub struct ExParseBigIntError(num_bigint::ParseBigIntError);

/// The natural number that a `BigUint` holds.
pub uninterp spec fn big_value(n: BigUint) -> nat;

/// `BigUint::from_str`: reads a number in base ten. A nonempty string of
/// ASCII digits is always accepted, and the result holds the number that the
/// digits denote. Nothing is claimed of other strings.
#[verifier::external_body]
pub(crate) fn big_from_str(s: &str) -> (r: Result<BigUint, ParseBigIntError>)
    ensures
        all_digits(s@) && s@.len() > 0 ==> r is Ok && big_value(r.unwrap()) == decimal_value(s@),
{
    BigUint::from_str(s)
}

/// `&BigUint % u32`: the remainder of the division by `d`, as a `BigUint`.
/// The operator panics on a zero divisor.
#[verifier::external_body]
pub(crate) fn big_rem(n: &BigUint, d: u32) -> (r: BigUint)
    requires
        d != 0,
    ensures
        big_value(r) == big_value(*n) % (d as nat),
{
    n % d
}

/// `BigUint /= u32`: replaces the number by its quotient by `d`, rounded
/// down. The operator panics on a zero divisor.
#[verifier::external_body]
pub(crate) fn big_div_assign(n: &mut BigUint, d: u32)
    requires
        d != 0,
    ensures
        big_value(*final(n)) == big_value(*old(n)) / (d as nat),
{
    *n /= d;
}

/// `BigUint -= u32`: subtracts `d`. The operator panics where `d` is larger
/// than the number.
#[verifier::external_body]
pub(crate) fn big_sub_assign(n: &mut BigUint, d: u32)
    requires
        big_value(*old(n)) >= d,
    ensures
        big_value(*final(n)) == big_value(*old(n)) - d,
{
    *n -= d;
}

/// `BigUint += u32`: adds `d`.
#[verifier::external_body]
pub(crate) fn big_add_assign(n: &mut BigUint, d: u32)
    ensures
        big_value(*final(n)) == big_value(*old(n)) + d,
{
    *n += d;
}

/// `Zero::is_zero` of `BigUint`: whether the number is zero.
#[verifier::external_body]
pub(crate) fn big_is_zero(n: &BigUint) -> (r: bool)
    ensures
        r == (big_value(*n) == 0),
{
    n.is_zero()
}

/// `One::is_one` of `BigUint`: whether the number is one.
#[verifier::external_body]
pub(crate) fn big_is_one(n: &BigUint) -> (r: bool)
    ensures
        r == (big_value(*n) == 1),
{
    n.is_one()
}

/// `ToPrimitive::to_u32` of `BigUint`: the number as a `u32` where it fits
/// in one, `None` where it does not.
#[verifier::external_body]
pub(crate) fn big_to_u32(n: &BigUint) -> (r: Option<u32>)
    ensures
        big_value(*n) <= u32::MAX ==> r == Some(big_value(*n) as u32),
        big_value(*n) > u32::MAX ==> r is None,
{
    n.to_u32()
}

} // verus!
