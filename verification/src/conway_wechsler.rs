//! The Conway-Wechsler system: million, billion, trillion and so on without
//! end, each -illion named by Latin prefixes.
//!
//! Digits are read in groups of three. The group at place `k`, counted from
//! the right and from zero, is followed by the name of the `k`-th power of one
//! thousand. Three scales are offered. The short scale has a new -illion for
//! every power of one thousand: ten to the ninth is one billion. The long
//! scales have one for every power of one million; for the powers in between
//! Peletier's scale ends the name in -illiard (one milliard) and the older
//! British scale puts "thousand" before it (one thousand million).

use vstd::prelude::*;
use crate::biguint::big_add_assign;
use crate::biguint::big_div_assign;
use crate::biguint::big_from_str;
use crate::biguint::big_is_one;
use crate::biguint::big_is_zero;
use crate::biguint::big_rem;
use crate::biguint::big_sub_assign;
use crate::biguint::big_to_u32;
use crate::biguint::big_value;
use crate::common::first_nonzero;
use crate::common::is_all_digits;
use crate::common::latin_prefix;
use crate::common::latin_prefix_name;
use crate::common::myriad_name;
use crate::common::myriad_number;
use crate::common::num_from_slice;
use crate::digits::all_digits;
use crate::digits::decimal_value;
use crate::digits::lemma_decimal_value_extend;
use crate::digits::lemma_decimal_value_positive;
use crate::digits::lemma_decimal_value_power;
use crate::digits::lemma_decimal_value_zeros;
use crate::digits::lemma_digits_are_ascii;
use crate::digits::lemma_leading_zeros;
use crate::digits::lemma_pow10_positive;
use crate::digits::lemma_pow10_small;
use crate::digits::pow10;
use crate::digits::zeros;
use crate::outcome;
use crate::ParseError;

verus! {

/// How the names grow with the powers of one thousand.
#[derive(Debug, Clone, Copy, PartialEq, Eq, Structural)]
pub enum Scale {
    /// The scale of modern English: ten to the ninth is one billion.
    Short,
    /// The scale once used in Britain: ten to the ninth is one thousand
    /// million.
    LongBritish,
    /// The scale of French and many other European languages: ten to the
    /// ninth is one milliard.
    LongPeletier,
}

/// The prefixes of `power` written in base one thousand, the most significant
/// digit first, each ending in `illi`: 1 is `milli`, 1000 is `millinilli`.
/// Zero has no digits and the empty chain.
pub open spec fn illion_chain(power: nat) -> Seq<char>
    decreases power,
{
    if power == 0 {
        Seq::empty()
    } else {
        illion_chain(power / 1000) + latin_prefix_name(power % 1000) + "illi"@
    }
}

/// Which -illion names the `k`-th power of one thousand, for `k` from two on:
/// the short scale counts every power, the long scales every other one.
pub open spec fn illion_index(k: nat, scale: Scale) -> nat {
    match scale {
        Scale::Short => (k - 1) as nat,
        _ => ((k + 2) / 2 - 1) as nat,
    }
}

/// The name of the `k`-th power of one thousand: empty for the units,
/// `thousand`, then the -illions.
pub open spec fn zillion_name(k: nat, scale: Scale) -> Seq<char> {
    if k == 0 {
        Seq::empty()
    } else if k == 1 {
        "thousand"@
    } else {
        let between = k % 2 == 1;
        let lead = if scale == Scale::LongBritish && between {
            "thousand "@
        } else {
            Seq::empty()
        };
        let ending = if scale == Scale::LongPeletier && between {
            "ard"@
        } else {
            "on"@
        };
        lead + illion_chain(illion_index(k, scale)) + ending
    }
}

/// The name of the group of three digits with the value `group`, other than
/// zero, at place `k`.
pub open spec fn group_name(group: nat, k: nat, scale: Scale) -> Seq<char> {
    if k == 0 {
        myriad_name(group)
    } else {
        myriad_name(group) + " "@ + zillion_name(k, scale)
    }
}

/// The name `so_far` with the group at place `k` added to it. A group of
/// zeros adds nothing; other groups are set apart by one space.
pub open spec fn with_group(so_far: Seq<char>, group: nat, k: nat, scale: Scale) -> Seq<char> {
    if group == 0 {
        so_far
    } else if so_far.len() == 0 {
        group_name(group, k, scale)
    } else {
        so_far + " "@ + group_name(group, k, scale)
    }
}

/// The name of `n` times the `k`-th power of one thousand, read group by
/// group from the most significant one. Zero has the empty name.
pub open spec fn groups_name(n: nat, k: nat, scale: Scale) -> Seq<char>
    decreases n,
{
    if n == 0 {
        Seq::empty()
    } else {
        with_group(groups_name(n / 1000, k + 1, scale), n % 1000, k, scale)
    }
}

/// The full name of the number `n`.
pub open spec fn number_name(n: nat, scale: Scale) -> Seq<char> {
    if n == 0 {
        "zero"@
    } else {
        groups_name(n, 0, scale)
    }
}

/// What `full_name` returns for a string: the name of the number that the
/// digits denote, or the reason why there is none.
pub open spec fn full_name_spec(digits: Seq<char>, scale: Scale) -> Result<Seq<char>, ParseError> {
    if !all_digits(digits) {
        Err(ParseError::InvalidDigit)
    } else if digits.len() == 0 {
        Err(ParseError::Empty)
    } else {
        Ok(number_name(decimal_value(digits), scale))
    }
}

/// The words in front of the name of a power of ten: `rem` is the exponent's
/// remainder by three.
pub open spec fn leading_words(rem: nat) -> Seq<char> {
    if rem == 0 {
        "one"@
    } else if rem == 1 {
        "ten"@
    } else {
        "one hundred"@
    }
}

/// The name of ten to the power `exponent`: one, ten or one hundred of the
/// power of one thousand that the exponent reaches.
pub open spec fn power_name(exponent: nat, scale: Scale) -> Seq<char> {
    let k = exponent / 3;
    if k == 0 {
        leading_words(exponent % 3)
    } else {
        leading_words(exponent % 3) + " "@ + zillion_name(k, scale)
    }
}

/// What `power_of_ten` returns for a string: the name of ten to the power
/// that the digits denote, or the reason why there is none.
pub open spec fn power_of_ten_spec(digits: Seq<char>, scale: Scale) -> Result<
    Seq<char>,
    ParseError,
> {
    if !all_digits(digits) {
        Err(ParseError::InvalidDigit)
    } else if digits.len() == 0 {
        Err(ParseError::Empty)
    } else {
        Ok(power_name(decimal_value(digits), scale))
    }
}

/// Names one digit of a chain: the Latin prefix of `num` with `illi` behind
/// it. Zero gives `nilli`. A number from one thousand on has no prefix.
fn zillion_prefix(num: usize) -> (r: Result<String, ParseError>)
    ensures
        num < 1000 ==> outcome(r) == Ok::<Seq<char>, ParseError>(
            latin_prefix_name(num as nat) + "illi"@,
        ),
        num >= 1000 ==> outcome(r) == Err::<Seq<char>, ParseError>(ParseError::InternalError),
{
    match latin_prefix(num) {
        Some(mut name) => {
            name.append("illi");
            Ok(name)
        },
        None => Err(ParseError::InternalError),
    }
}

/// Names the power of one thousand at place `num`.
fn zillion_number(num: usize, scale: Scale) -> (r: Result<String, ParseError>)
    ensures
        outcome(r) == Ok::<Seq<char>, ParseError>(zillion_name(num as nat, scale)),
{
    if num == 0 {
        return Ok(String::new());
    }
    if num == 1 {
        return Ok(String::from_str("thousand"));
    }
    let between = num % 2 == 1;
    let lead = match scale {
        Scale::LongBritish => if between {
            "thousand "
        } else {
            ""
        },
        _ => "",
    };
    let ending = match scale {
        Scale::LongPeletier => if between {
            "ard"
        } else {
            "on"
        },
        _ => "on",
    };
    let index = match scale {
        Scale::Short => num - 1,
        _ => num / 2,
    };

    // The digits of the index come out least significant first, so each
    // prefix goes in front of those already there.
    let mut chain = String::new();
    let mut power = index;
    while power > 0
        invariant
            illion_chain(power as nat) + chain@ == illion_chain(index as nat),
        decreases power,
    {
        let mut zillion = match zillion_prefix(power % 1000) {
            Ok(zillion) => zillion,
            Err(e) => {
                return Err(e);
            },
        };
        zillion.append(chain.as_str());
        chain = zillion;
        power = power / 1000;
    }

    proof {
        reveal_strlit("");
    }
    let mut name = String::from_str(lead);
    name.append(chain.as_str());
    name.append(ending);
    Ok(name)
}

/// One more group of three digits behind a number: what the name becomes.
proof fn lemma_groups_name_step(n: nat, group: nat, k: nat, scale: Scale)
    requires
        group < 1000,
    ensures
        groups_name(n * 1000 + group, k, scale) == with_group(
            groups_name(n, k + 1, scale),
            group,
            k,
            scale,
        ),
{
    let m = n * 1000 + group;
    if m != 0 {
        assert(m / 1000 == n && m % 1000 == group);
    }
}

/// Adds the group of three digits with the value `num`, at place `k`, to the
/// name in `output`.
fn append_group(output: &mut String, num: usize, k: usize, scale: Scale) -> (r: Result<
    (),
    ParseError,
>)
    requires
        num < 1000,
    ensures
        r is Ok,
        final(output)@ == with_group(old(output)@, num as nat, k as nat, scale),
{
    if num == 0 {
        return Ok(());
    }
    let leading = match myriad_number(num) {
        Some(leading) => leading,
        None => {
            return Err(ParseError::InternalError);
        },
    };
    let zillion = match zillion_number(k, scale) {
        Ok(zillion) => zillion,
        Err(e) => {
            return Err(e);
        },
    };
    if !output.as_str().is_empty() {
        output.append(" ");
    }
    output.append(leading.as_str());
    if k != 0 {
        output.append(" ");
        output.append(zillion.as_str());
    }
    Ok(())
}

/// Gives the full name of the number that `digits` denotes: "zero" for
/// zero, and otherwise the names of its groups of three digits from the left,
/// each followed by the name of its power of one thousand. Zeros in front do
/// not count.
///
/// Fails with `InvalidDigit` where a character is no digit, and with `Empty`
/// on the empty string.
pub fn full_name(digits: &str, scale: Scale) -> (r: Result<String, ParseError>)
    ensures
        outcome(r) == full_name_spec(digits@, scale),
{
    if !is_all_digits(digits) {
        return Err(ParseError::InvalidDigit);
    }
    let len = digits.as_bytes().len();
    proof {
        lemma_digits_are_ascii(digits@);
        vstd::string::is_ascii_spec_bytes(digits);
    }
    if len == 0 {
        return Err(ParseError::Empty);
    }
    let mut i = match first_nonzero(digits) {
        Some(i) => i,
        None => {
            proof {
                lemma_decimal_value_zeros(len as nat);
            }
            return Ok(String::from_str("zero"));
        },
    };
    let ghost start = i;
    proof {
        lemma_decimal_value_zeros(i as nat);
    }

    let mut output = String::new();
    let mut remaining = len - i;
    let first = remaining % 3;

    // The leftmost group may have one or two digits only.
    if first > 0 {
        proof {
            lemma_decimal_value_extend(digits@, i as int, first as int);
            lemma_pow10_small();
            lemma_groups_name_step(
                0,
                decimal_value(digits@.subrange(i as int, i + first)),
                (remaining / 3) as nat,
                scale,
            );
        }
        let num = num_from_slice(digits, i, first);
        match append_group(&mut output, num, remaining / 3, scale) {
            Ok(()) => {},
            Err(e) => {
                return Err(e);
            },
        }
        remaining -= first;
        i += first;
    }

    while remaining > 0
        invariant
            all_digits(digits@),
            len == digits@.len(),
            i + remaining == len,
            remaining % 3 == 0,
            digits@[start as int] != '0',
            output@ == groups_name(
                decimal_value(digits@.subrange(0, i as int)),
                (remaining / 3) as nat,
                scale,
            ),
        decreases remaining,
    {
        proof {
            lemma_decimal_value_extend(digits@, i as int, 3);
            lemma_pow10_small();
            lemma_groups_name_step(
                decimal_value(digits@.subrange(0, i as int)),
                decimal_value(digits@.subrange(i as int, i + 3)),
                (remaining / 3 - 1) as nat,
                scale,
            );
        }
        let num = num_from_slice(digits, i, 3);
        match append_group(&mut output, num, remaining / 3 - 1, scale) {
            Ok(()) => {},
            Err(e) => {
                return Err(e);
            },
        }
        i += 3;
        remaining -= 3;
    }

    proof {
        assert(digits@.subrange(0, len as int) =~= digits@);
        lemma_decimal_value_positive(digits@, start as int);
    }
    Ok(output)
}

/// Gives the name of ten to the power that `digits` denotes, the same name
/// that `full_name` gives to a one followed by that many zeros. The number
/// itself is never written out: the exponent is divided by three, and the
/// quotient says which power of one thousand to name.
///
/// Fails with `InvalidDigit` where a character is no digit, and with `Empty`
/// on the empty string.
pub fn power_of_ten(digits: &str, scale: Scale) -> (r: Result<String, ParseError>)
    ensures
        outcome(r) == power_of_ten_spec(digits@, scale),
{
    if !is_all_digits(digits) {
        return Err(ParseError::InvalidDigit);
    }
    if digits.is_empty() {
        return Err(ParseError::Empty);
    }
    let mut power = match big_from_str(digits) {
        Ok(power) => power,
        Err(_) => {
            return Err(ParseError::InternalError);
        },
    };
    let ghost exponent = big_value(power);

    // One, ten or one hundred of the power of one thousand below.
    let words = match big_to_u32(&big_rem(&power, 3)) {
        Some(0) => "one",
        Some(1) => "ten",
        Some(2) => "one hundred",
        _ => {
            return Err(ParseError::InternalError);
        },
    };
    let mut output = String::from_str(words);

    big_div_assign(&mut power, 3);
    if big_is_zero(&power) {
        return Ok(output);
    }
    output.append(" ");
    if big_is_one(&power) {
        output.append("thousand");
        return Ok(output);
    }
    let ghost k = big_value(power);

    // From here on the power of one thousand is an -illion.
    big_sub_assign(&mut power, 1);
    let between = big_is_zero(&big_rem(&power, 2));
    let lead = match scale {
        Scale::LongBritish => if between {
            "thousand "
        } else {
            ""
        },
        _ => "",
    };
    let ending = match scale {
        Scale::LongPeletier => if between {
            "ard"
        } else {
            "on"
        },
        _ => "on",
    };
    match scale {
        Scale::Short => {},
        _ => {
            big_add_assign(&mut power, 3);
            big_div_assign(&mut power, 2);
            big_sub_assign(&mut power, 1);
        },
    }
    let ghost index = big_value(power);
    assert(index == illion_index(k, scale));

    // The digits of the index come out least significant first, so each
    // prefix goes in front of those already there.
    let mut chain = String::new();
    while !big_is_zero(&power)
        invariant
            illion_chain(big_value(power)) + chain@ == illion_chain(index),
        decreases big_value(power),
    {
        let digit = match big_to_u32(&big_rem(&power, 1000)) {
            Some(digit) => digit as usize,
            None => {
                return Err(ParseError::InternalError);
            },
        };
        let mut zillion = match zillion_prefix(digit) {
            Ok(zillion) => zillion,
            Err(e) => {
                return Err(e);
            },
        };
        zillion.append(chain.as_str());
        chain = zillion;
        big_div_assign(&mut power, 1000);
    }

    proof {
        reveal_strlit("");
    }
    output.append(lead);
    output.append(chain.as_str());
    output.append(ending);
    assert(output@ =~= leading_words(exponent % 3) + " "@ + zillion_name(k, scale));
    Ok(output)
}

/// One, ten and one hundred have the names that stand in front of a power of
/// ten.
proof fn lemma_leading_words(rem: nat)
    requires
        rem < 3,
    ensures
        myriad_name(pow10(rem)) == leading_words(rem),
{
    reveal(myriad_name);
    lemma_pow10_small();
    reveal_strlit("one");
    reveal_strlit(" hundred");
    reveal_strlit("one hundred");
    if rem == 2 {
        assert(myriad_name(100) =~= "one hundred"@);
    }
}

/// Ten to the `n`, read from place `k` on, is a single group: one, ten or one
/// hundred at the place that the groups of zeros behind it leave.
proof fn lemma_groups_name_power(n: nat, k: nat, scale: Scale)
    ensures
        groups_name(pow10(n), k, scale) == group_name(pow10(n % 3), k + n / 3, scale),
    decreases n,
{
    if n < 3 {
        lemma_pow10_small();
        lemma_groups_name_step(0, pow10(n), k, scale);
    } else {
        let rest = (n - 3) as nat;
        assert(pow10(n) == pow10(rest) * 1000) by {
            reveal_with_fuel(pow10, 4);
        }
        lemma_pow10_positive(rest);
        lemma_groups_name_step(pow10(rest), 0, k, scale);
        lemma_groups_name_power(rest, k + 1, scale);
    }
}

/// A string of zeros, however long, has the name "zero" on every scale.
pub proof fn law_zeros_are_zero(n: nat, scale: Scale)
    requires
        n > 0,
    ensures
        full_name_spec(zeros(n), scale) == Ok::<Seq<char>, ParseError>("zero"@),
{
    lemma_decimal_value_zeros(n);
}

/// Zeros in front of a string do not change what `full_name` returns for it,
/// be it a name or `InvalidDigit`. The string must not be empty: zeros alone
/// have a name, the empty string has none.
pub proof fn law_leading_zeros(n: nat, digits: Seq<char>, scale: Scale)
    requires
        digits.len() > 0,
    ensures
        full_name_spec(zeros(n) + digits, scale) == full_name_spec(digits, scale),
{
    lemma_leading_zeros(n, digits);
}

/// Neither `full_name` nor `power_of_ten` names the empty string, which they
/// refuse as `Empty`, or a string with a character that is no digit, which
/// they refuse as `InvalidDigit`. Every other string has a name.
pub proof fn law_refused_input(digits: Seq<char>, scale: Scale)
    ensures
        digits.len() == 0 ==> full_name_spec(digits, scale) == Err::<Seq<char>, ParseError>(
            ParseError::Empty,
        ) && power_of_ten_spec(digits, scale) == Err::<Seq<char>, ParseError>(ParseError::Empty),
        !all_digits(digits) ==> full_name_spec(digits, scale) == Err::<Seq<char>, ParseError>(
            ParseError::InvalidDigit,
        ) && power_of_ten_spec(digits, scale) == Err::<Seq<char>, ParseError>(
            ParseError::InvalidDigit,
        ),
        all_digits(digits) && digits.len() > 0 ==> full_name_spec(digits, scale) is Ok
            && power_of_ten_spec(digits, scale) is Ok,
{
}

/// What `power_of_ten` returns for an exponent is what `full_name` returns
/// for a one followed by as many zeros as the exponent says, on every scale
/// and for every exponent.
pub proof fn law_power_of_ten_is_full_name(exponent: Seq<char>, scale: Scale)
    requires
        all_digits(exponent),
        exponent.len() > 0,
    ensures
        power_of_ten_spec(exponent, scale) == full_name_spec(
            seq!['1'] + zeros(decimal_value(exponent)),
            scale,
        ),
{
    let n = decimal_value(exponent);
    lemma_decimal_value_power(n);
    lemma_pow10_positive(n);
    lemma_groups_name_power(n, 0, scale);
    lemma_leading_words(n % 3);
}

} // verus!
