//! Knuth's -yllion system, in which every new name is the square of the one
//! before: ten to the second is one hundred, ten to the fourth one myriad,
//! ten to the eighth one myllion, ten to the sixteenth one byllion.
//!
//! Digits are read in groups of four. The group at place `k`, counted from
//! the right and from zero, is followed by "myriad" where `k` is odd, and
//! otherwise by the -yllion of the largest power of two that divides `k`. A
//! name such as "twelve myriad myllion" lets the last word count what stands
//! before it, so a group of zeros may still have to put in its -yllion: the
//! reading keeps the rank of the word it wrote last, and a group of zeros
//! writes its own word where that ranks higher.

use vstd::prelude::*;
use vstd::arithmetic::div_mod::lemma_basic_div;
use vstd::arithmetic::div_mod::lemma_div_denominator;
use vstd::arithmetic::div_mod::lemma_div_non_zero;
use vstd::arithmetic::power2::lemma2_to64;
use vstd::arithmetic::power2::lemma2_to64_rest;
use vstd::arithmetic::power2::lemma_pow2_pos;
use vstd::arithmetic::power2::lemma_pow2_strictly_increases;
use vstd::arithmetic::power2::lemma_pow2_unfold;
use vstd::arithmetic::power2::pow2;
use crate::biguint::big_div_assign;
use crate::biguint::big_from_str;
use crate::biguint::big_is_zero;
use crate::biguint::big_rem;
use crate::biguint::big_to_u32;
use crate::biguint::big_value;
use crate::common::first_nonzero;
use crate::common::is_all_digits;
use crate::common::latin_prefix;
use crate::common::latin_prefix_name;
use crate::common::myriad_name;
use crate::common::myriad_number;
use crate::common::num_from_slice;
use crate::digits::all_digits;
use crate::digits::decimal_value;
use crate::digits::lemma_all_digits_subrange;
use crate::digits::lemma_decimal_value_extend;
use crate::digits::lemma_decimal_value_positive;
use crate::digits::lemma_decimal_value_power;
use crate::digits::lemma_decimal_value_zeros;
use crate::digits::lemma_digits_are_ascii;
use crate::digits::lemma_leading_zeros;
use crate::digits::lemma_pow10_small;
use crate::digits::zeros;
use crate::outcome;
use crate::yllion_powers::lemma_power_name;
use crate::ParseError;

verus! {

/// How many times two divides `k`; zero for zero.
pub open spec fn twos_in(k: nat) -> nat
    decreases k,
{
    if k == 0 || k % 2 == 1 {
        0
    } else {
        1 + twos_in(k / 2)
    }
}

/// The rank of the word behind the group at place `k`: zero for no word, one
/// for myriad, two for myllion, three for byllion and so on.
pub open spec fn zyllion_rank(k: nat) -> nat {
    if k == 0 {
        0
    } else if k % 2 == 1 {
        1
    } else {
        twos_in(k) + 1
    }
}

/// The word behind the group at place `k`: none at the units, `myriad` at
/// the odd places, and at an even place the -yllion whose Latin prefix counts
/// how many times two divides `k`.
pub open spec fn zyllion_name(k: nat) -> Seq<char> {
    if k == 0 {
        Seq::empty()
    } else if k % 2 == 1 {
        "myriad"@
    } else {
        latin_prefix_name(twos_in(k)) + "yllion"@
    }
}

/// A reading, that is the name so far and the rank of the word written last,
/// after the group of four digits with the value `group` at place `k`.
///
/// A group other than zero writes its own name and then its word, which
/// becomes the last one written; at the units there is no word and the rank
/// stays. A group of zeros writes its word alone where that ranks above the
/// last one written, and nothing otherwise.
pub open spec fn with_group(so_far: (Seq<char>, nat), group: nat, k: nat) -> (Seq<char>, nat) {
    let name = so_far.0;
    let rank = so_far.1;
    if group != 0 {
        let named = if name.len() == 0 {
            myriad_name(group)
        } else {
            name + " "@ + myriad_name(group)
        };
        if k == 0 {
            (named, rank)
        } else {
            (named + " "@ + zyllion_name(k), zyllion_rank(k))
        }
    } else if zyllion_rank(k) > rank {
        (name + " "@ + zyllion_name(k), zyllion_rank(k))
    } else {
        so_far
    }
}

/// The reading of `n` times the `k`-th power of ten thousand, group by group
/// from the most significant one. Nothing is written for zero.
pub open spec fn groups_reading(n: nat, k: nat) -> (Seq<char>, nat)
    decreases n,
{
    if n == 0 {
        (Seq::empty(), 0)
    } else {
        with_group(groups_reading(n / 10000, k + 1), n % 10000, k)
    }
}

/// The full name of the number `n`.
pub open spec fn number_name(n: nat) -> Seq<char> {
    if n == 0 {
        "zero"@
    } else {
        groups_reading(n, 0).0
    }
}

/// What `full_name` returns for a string: the name of the number that the
/// digits denote, or the reason why there is none.
pub open spec fn full_name_spec(digits: Seq<char>) -> Result<Seq<char>, ParseError> {
    if !all_digits(digits) {
        Err(ParseError::InvalidDigit)
    } else if digits.len() == 0 {
        Err(ParseError::Empty)
    } else {
        Ok(number_name(decimal_value(digits)))
    }
}

/// The -yllion terms of a power of ten. `bits` is what is left of the
/// exponent after its lowest bits were taken away, and `index` the Latin
/// prefix that belongs to the lowest bit left. Each bit that is set adds a
/// space and the -yllion of its prefix, the lowest bit first.
pub open spec fn yllion_terms(bits: nat, index: nat) -> Seq<char>
    decreases bits,
{
    if bits == 0 {
        Seq::empty()
    } else if bits % 2 == 1 {
        " "@ + latin_prefix_name(index) + "yllion"@ + yllion_terms(bits / 2, index + 1)
    } else {
        yllion_terms(bits / 2, index + 1)
    }
}

/// The name of ten to the power `exponent`, read off the bits of the
/// exponent: the lowest says `ten` or `one`, the next two add `hundred` and
/// `myriad`, and the bit at place `j` from three on adds the -yllion with the
/// Latin prefix of `j - 2`.
pub open spec fn power_name(exponent: nat) -> Seq<char> {
    let unit = if exponent % 2 == 1 {
        "ten"@
    } else {
        "one"@
    };
    let hundred = if exponent / 2 % 2 == 1 {
        " hundred"@
    } else {
        Seq::empty()
    };
    let myriad = if exponent / 4 % 2 == 1 {
        " myriad"@
    } else {
        Seq::empty()
    };
    unit + hundred + myriad + yllion_terms(exponent / 8, 1)
}

/// What `power_of_ten` returns for a string: the name of ten to the power
/// that the digits denote, or the reason why there is none. An exponent from
/// two to the 1002nd on has a bit that asks for a Latin prefix beyond 999.
pub open spec fn power_of_ten_spec(digits: Seq<char>) -> Result<Seq<char>, ParseError> {
    if !all_digits(digits) {
        Err(ParseError::InvalidDigit)
    } else if digits.len() == 0 {
        Err(ParseError::Empty)
    } else if decimal_value(digits) >= pow2(1002) {
        Err(ParseError::InputTooLarge)
    } else {
        Ok(power_name(decimal_value(digits)))
    }
}

/// A number below two to the `bits` is divisible by two fewer than `bits`
/// times.
proof fn lemma_twos_in_bound(k: nat, bits: nat)
    requires
        0 < k < pow2(bits),
    ensures
        twos_in(k) < bits,
    decreases k,
{
    if bits == 0 {
        lemma2_to64();
    } else if k % 2 == 0 {
        lemma_pow2_unfold(bits);
        lemma_twos_in_bound(k / 2, (bits - 1) as nat);
    }
}

/// Names the word behind the group at place `num`, and gives its rank.
fn zyllion_number(num: usize) -> (r: Result<(String, usize), ParseError>)
    ensures
        r is Ok,
        r.unwrap().0@ == zyllion_name(num as nat),
        r.unwrap().1 == zyllion_rank(num as nat),
{
    if num == 0 {
        return Ok((String::new(), 0));
    }
    if num % 2 == 1 {
        return Ok((String::from_str("myriad"), 1));
    }
    proof {
        lemma2_to64();
        lemma2_to64_rest();
        lemma_twos_in_bound(num as nat, 64);
    }
    let mut twos: usize = 0;
    let mut rest = num;
    while rest % 2 == 0
        invariant
            rest > 0,
            twos + twos_in(rest as nat) == twos_in(num as nat),
            twos_in(num as nat) < 64,
        decreases rest,
    {
        rest = rest / 2;
        twos += 1;
    }
    let mut name = match latin_prefix(twos) {
        Some(name) => name,
        None => {
            return Err(ParseError::InternalError);
        },
    };
    name.append("yllion");
    Ok((name, twos + 1))
}

/// One more group of four digits behind a number: what the reading becomes.
pub(crate) proof fn lemma_groups_reading_step(n: nat, group: nat, k: nat)
    requires
        group < 10000,
        n > 0 || group > 0,
    ensures
        groups_reading(n * 10000 + group, k) == with_group(groups_reading(n, k + 1), group, k),
{
    let m = n * 10000 + group;
    assert(m / 10000 == n && m % 10000 == group);
}

/// Adds the group of four digits with the value `num`, at place `k`, to the
/// name in `output`, and keeps the rank of the word written last.
fn append_group(output: &mut String, last_largest: &mut usize, num: usize, k: usize) -> (r: Result<
    (),
    ParseError,
>)
    requires
        num < 10000,
    ensures
        r is Ok,
        (final(output)@, *final(last_largest) as nat) == with_group(
            (old(output)@, *old(last_largest) as nat),
            num as nat,
            k as nat,
        ),
{
    let (zyllion, largest) = match zyllion_number(k) {
        Ok(word) => word,
        Err(e) => {
            return Err(e);
        },
    };
    if num != 0 {
        let leading = match myriad_number(num) {
            Some(leading) => leading,
            None => {
                return Err(ParseError::InternalError);
            },
        };
        if !output.as_str().is_empty() {
            output.append(" ");
        }
        output.append(leading.as_str());
        if k != 0 {
            output.append(" ");
            output.append(zyllion.as_str());
            *last_largest = largest;
        }
    } else if largest > *last_largest {
        output.append(" ");
        output.append(zyllion.as_str());
        *last_largest = largest;
    }
    Ok(())
}

/// Gives the full name of the number that `digits` denotes: "zero" for
/// zero, and otherwise the names of its groups of four digits from the left,
/// with the words that say what each group counts. Zeros in front do not
/// count.
///
/// Fails with `InvalidDigit` where a character is no digit, and with `Empty`
/// on the empty string.
pub fn full_name(digits: &str) -> (r: Result<String, ParseError>)
    ensures
        outcome(r) == full_name_spec(digits@),
{
    if !is_all_digits(digits) {
        return Err(ParseError::InvalidDigit);
    }
    let len = digits.as_bytes().len();
    proof {
        lemma_digits_are_ascii(digits@);
        vstd::string::is_ascii_spec_bytes(digits);
    }
    if len == 0 {
        return Err(ParseError::Empty);
    }
    let mut i = match first_nonzero(digits) {
        Some(i) => i,
        None => {
            proof {
                lemma_decimal_value_zeros(len as nat);
            }
            return Ok(String::from_str("zero"));
        },
    };
    let ghost start = i;
    proof {
        lemma_decimal_value_zeros(i as nat);
    }

    let mut output = String::new();
    let mut last_largest: usize = 0;
    let mut remaining = len - i;
    let first = remaining % 4;

    // The leftmost group may have fewer than four digits.
    if first > 0 {
        proof {
            lemma_decimal_value_extend(digits@, i as int, first as int);
            lemma_pow10_small();
            lemma_all_digits_subrange(digits@, i as int, i + first);
            lemma_decimal_value_positive(digits@.subrange(i as int, i + first), 0);
            lemma_groups_reading_step(
                0,
                decimal_value(digits@.subrange(i as int, i + first)),
                (remaining / 4) as nat,
            );
        }
        let num = num_from_slice(digits, i, first);
        match append_group(&mut output, &mut last_largest, num, remaining / 4) {
            Ok(()) => {},
            Err(e) => {
                return Err(e);
            },
        }
        remaining -= first;
        i += first;
    }

    while remaining > 0
        invariant
            all_digits(digits@),
            len == digits@.len(),
            i + remaining == len,
            remaining % 4 == 0,
            start <= i,
            digits@[start as int] != '0',
            (output@, last_largest as nat) == groups_reading(
                decimal_value(digits@.subrange(0, i as int)),
                (remaining / 4) as nat,
            ),
        decreases remaining,
    {
        proof {
            lemma_decimal_value_extend(digits@, i as int, 4);
            lemma_pow10_small();
            lemma_all_digits_subrange(digits@, 0, i + 4);
            lemma_decimal_value_positive(digits@.subrange(0, i + 4), start as int);
            lemma_groups_reading_step(
                decimal_value(digits@.subrange(0, i as int)),
                decimal_value(digits@.subrange(i as int, i + 4)),
                (remaining / 4 - 1) as nat,
            );
        }
        let num = num_from_slice(digits, i, 4);
        match append_group(&mut output, &mut last_largest, num, remaining / 4 - 1) {
            Ok(()) => {},
            Err(e) => {
                return Err(e);
            },
        }
        i += 4;
        remaining -= 4;
    }

    proof {
        assert(digits@.subrange(0, len as int) =~= digits@);
        lemma_decimal_value_positive(digits@, start as int);
    }
    Ok(output)
}

/// Halving a number that was divided by two to the `e` divides it by two to
/// the `e + 1`.
proof fn lemma_halve_again(n: nat, e: nat)
    ensures
        n / pow2(e) / 2 == n / pow2(e + 1),
{
    lemma_pow2_pos(e);
    lemma_pow2_unfold(e + 1);
    lemma_div_denominator(n as int, pow2(e) as int, 2);
}

/// Gives the name of ten to the power that `digits` denotes, the same name
/// that `full_name` gives to a one followed by that many zeros. The number
/// itself is never written out: each bit of the exponent that is set stands
/// for one word of the name.
///
/// Fails with `InvalidDigit` where a character is no digit, with `Empty` on
/// the empty string, and with `InputTooLarge` where the exponent is two to
/// the 1002nd or more, for which the Latin prefixes do not suffice.
pub fn power_of_ten(digits: &str) -> (r: Result<String, ParseError>)
    ensures
        outcome(r) == power_of_ten_spec(digits@),
{
    if !is_all_digits(digits) {
        return Err(ParseError::InvalidDigit);
    }
    if digits.is_empty() {
        return Err(ParseError::Empty);
    }
    let mut power = match big_from_str(digits) {
        Ok(power) => power,
        Err(_) => {
            return Err(ParseError::InternalError);
        },
    };
    let ghost exponent = big_value(power);
    proof {
        lemma2_to64();
    }

    // The three lowest bits have words of their own.
    let unit = match big_to_u32(&big_rem(&power, 2)) {
        Some(1) => "ten",
        _ => "one",
    };
    let mut output = String::from_str(unit);

    big_div_assign(&mut power, 2);
    if let Some(1) = big_to_u32(&big_rem(&power, 2)) {
        output.append(" hundred");
    }
    big_div_assign(&mut power, 2);
    if let Some(1) = big_to_u32(&big_rem(&power, 2)) {
        output.append(" myriad");
    }
    big_div_assign(&mut power, 2);
    assert(big_value(power) == exponent / 8);

    // Every further bit that is set is an -yllion.
    let mut index: usize = 1;
    while !big_is_zero(&power)
        invariant
            all_digits(digits@),
            digits@.len() > 0,
            exponent == decimal_value(digits@),
            1 <= index <= 1000,
            big_value(power) == exponent / pow2((index + 2) as nat),
            output@ + yllion_terms(big_value(power), index as nat) == power_name(exponent),
        decreases big_value(power),
    {
        if index > 999 {
            proof {
                if exponent < pow2(1002) {
                    lemma_basic_div(exponent as int, pow2(1002) as int);
                }
            }
            return Err(ParseError::InputTooLarge);
        }
        let ghost before = output@;
        let ghost bits = big_value(power);
        if let Some(1) = big_to_u32(&big_rem(&power, 2)) {
            let prefix = match latin_prefix(index) {
                Some(prefix) => prefix,
                None => {
                    return Err(ParseError::InternalError);
                },
            };
            output.append(" ");
            output.append(prefix.as_str());
            output.append("yllion");
        }
        big_div_assign(&mut power, 2);
        proof {
            lemma_halve_again(exponent, (index + 2) as nat);
            assert(output@ + yllion_terms(bits / 2, (index + 1) as nat) =~= before + yllion_terms(
                bits,
                index as nat,
            ));
        }
        index += 1;
    }

    proof {
        let e = (index + 2) as nat;
        lemma_pow2_pos(e);
        if exponent >= pow2(e) {
            lemma_div_non_zero(exponent as int, pow2(e) as int);
        }
        if e < 1002 {
            lemma_pow2_strictly_increases(e, 1002);
        }
        assert(output@ + Seq::<char>::empty() =~= output@);
    }
    Ok(output)
}

/// A string of zeros, however long, has the name "zero".
pub proof fn law_zeros_are_zero(n: nat)
    requires
        n > 0,
    ensures
        full_name_spec(zeros(n)) == Ok::<Seq<char>, ParseError>("zero"@),
{
    lemma_decimal_value_zeros(n);
}

/// Zeros in front of a string do not change what `full_name` returns for it,
/// be it a name or `InvalidDigit`. The string must not be empty: zeros alone
/// have a name, the empty string has none.
pub proof fn law_leading_zeros(n: nat, digits: Seq<char>)
    requires
        digits.len() > 0,
    ensures
        full_name_spec(zeros(n) + digits) == full_name_spec(digits),
{
    lemma_leading_zeros(n, digits);
}

/// Neither `full_name` nor `power_of_ten` names the empty string, which they
/// refuse as `Empty`, or a string with a character that is no digit, which
/// they refuse as `InvalidDigit`. Every other string has a full name, and it
/// has a name as an exponent unless it is too large.
pub proof fn law_refused_input(digits: Seq<char>)
    ensures
        digits.len() == 0 ==> full_name_spec(digits) == Err::<Seq<char>, ParseError>(
            ParseError::Empty,
        ) && power_of_ten_spec(digits) == Err::<Seq<char>, ParseError>(ParseError::Empty),
        !all_digits(digits) ==> full_name_spec(digits) == Err::<Seq<char>, ParseError>(
            ParseError::InvalidDigit,
        ) && power_of_ten_spec(digits) == Err::<Seq<char>, ParseError>(ParseError::InvalidDigit),
        all_digits(digits) && digits.len() > 0 ==> full_name_spec(digits) is Ok && (
        power_of_ten_spec(digits) is Ok || power_of_ten_spec(digits) == Err::<
            Seq<char>,
            ParseError,
        >(ParseError::InputTooLarge)),
{
}

/// Where `power_of_ten` names an exponent, the name is what `full_name`
/// returns for a one followed by as many zeros as the exponent says: read
/// from the left, the groups of zeros write one word for each bit of the
/// exponent that is set.
pub proof fn law_power_of_ten_is_full_name(exponent: Seq<char>)
    requires
        all_digits(exponent),
        exponent.len() > 0,
        decimal_value(exponent) < pow2(1002),
    ensures
        power_of_ten_spec(exponent) == full_name_spec(seq!['1'] + zeros(decimal_value(exponent))),
{
    let n = decimal_value(exponent);
    lemma_decimal_value_power(n);
    lemma_power_name(n);
}

} // verus!
