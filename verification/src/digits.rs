//! Decimal digit strings and the numbers they denote.

use vstd::prelude::*;

verus! {

/// The byte that encodes the digit `0`.
pub const ASCII_ZERO: u8 = 0x30;

/// The byte that encodes the digit `9`.
pub const ASCII_NINE: u8 = 0x39;

/// `c` is one of the ASCII digits `0`..`9`.
pub open spec fn is_digit(c: char) -> bool {
    '0' <= c <= '9'
}

/// Every character of `s` is an ASCII digit. The empty string has all digits.
pub open spec fn all_digits(s: Seq<char>) -> bool {
    forall|i: int| 0 <= i < s.len() ==> is_digit(#[trigger] s[i])
}

/// The number that the digit `c` stands for.
pub open spec fn digit_value(c: char) -> nat {
    (c as int - '0' as int) as nat
}

/// The number that a string of digits denotes in base ten; zero for the
/// empty string.
pub open spec fn decimal_value(s: Seq<char>) -> nat
    decreases s.len(),
{
    if s.len() == 0 {
        0
    } else {
        10 * decimal_value(s.drop_last()) + digit_value(s.last())
    }
}

/// Ten to the power `n`.
pub open spec fn pow10(n: nat) -> nat
    decreases n,
{
    if n == 0 {
        1
    } else {
        10 * pow10((n - 1) as nat)
    }
}

/// The string of `n` zeros.
pub open spec fn zeros(n: nat) -> Seq<char> {
    Seq::new(n, |i: int| '0')
}

/// Digits are ASCII characters.
pub proof fn lemma_digits_are_ascii(s: Seq<char>)
    requires
        all_digits(s),
    ensures
        vstd::utf8::is_ascii_chars(s),
{
    assert forall|i: int| 0 <= i < s.len() implies '\0' <= #[trigger] s[i] <= '\u{7f}' by {
        assert(is_digit(s[i]));
    }
}

/// Every part of a digit string is a digit string.
pub proof fn lemma_all_digits_subrange(s: Seq<char>, from: int, to: int)
    requires
        all_digits(s),
        0 <= from <= to <= s.len(),
    ensures
        all_digits(s.subrange(from, to)),
{
    let part = s.subrange(from, to);
    assert forall|i: int| 0 <= i < part.len() implies is_digit(#[trigger] part[i]) by {
        assert(part[i] == s[from + i]);
    }
}

/// Ten to any power is more than zero.
pub proof fn lemma_pow10_positive(n: nat)
    ensures
        pow10(n) > 0,
    decreases n,
{
    if n > 0 {
        lemma_pow10_positive((n - 1) as nat);
    }
}

/// The powers of ten that the groups of digits need.
pub proof fn lemma_pow10_small()
    ensures
        pow10(0) == 1,
        pow10(1) == 10,
        pow10(2) == 100,
        pow10(3) == 1000,
        pow10(4) == 10000,
{
    reveal_with_fuel(pow10, 5);
}

/// Two digit strings written one after the other: the first is shifted left
/// by the length of the second.
pub proof fn lemma_decimal_value_concat(a: Seq<char>, b: Seq<char>)
    ensures
        decimal_value(a + b) == decimal_value(a) * pow10(b.len()) + decimal_value(b),
    decreases b.len(),
{
    let va = decimal_value(a);
    if b.len() == 0 {
        assert(a + b =~= a);
        assert(pow10(b.len()) == 1);
        assert(va * 1 == va);
    } else {
        let front = b.drop_last();
        let p = pow10(front.len());
        assert((a + b).drop_last() =~= a + front);
        assert((a + b).last() == b.last());
        lemma_decimal_value_concat(a, front);
        assert(pow10(b.len()) == 10 * p);
        assert(va * (10 * p) == 10 * (va * p)) by (nonlinear_arith);
    }
}

/// A string of `n` digits denotes a number below ten to the `n`.
pub proof fn lemma_decimal_value_bound(s: Seq<char>)
    requires
        all_digits(s),
    ensures
        decimal_value(s) < pow10(s.len()),
    decreases s.len(),
{
    if s.len() > 0 {
        lemma_all_digits_subrange(s, 0, s.len() - 1);
        lemma_decimal_value_bound(s.drop_last());
        assert(is_digit(s.last()));
    }
}

/// Reading `width` more digits of `s` behind the first `at`: what was read so
/// far moves `width` places to the left, and the new digits, which denote a
/// number below ten to the `width`, are added.
pub proof fn lemma_decimal_value_extend(s: Seq<char>, at: int, width: int)
    requires
        all_digits(s),
        0 <= at,
        0 <= width,
        at + width <= s.len(),
    ensures
        decimal_value(s.subrange(at, at + width)) < pow10(width as nat),
        decimal_value(s.subrange(0, at + width)) == decimal_value(s.subrange(0, at)) * pow10(
            width as nat,
        ) + decimal_value(s.subrange(at, at + width)),
{
    let head = s.subrange(0, at);
    let more = s.subrange(at, at + width);
    lemma_all_digits_subrange(s, at, at + width);
    lemma_decimal_value_bound(more);
    lemma_decimal_value_concat(head, more);
    assert(head + more =~= s.subrange(0, at + width));
}

/// A digit string denotes at least what any of its prefixes denotes.
pub proof fn lemma_decimal_value_prefix(s: Seq<char>, n: int)
    requires
        0 <= n <= s.len(),
    ensures
        decimal_value(s.subrange(0, n)) <= decimal_value(s),
    decreases s.len() - n,
{
    if n == s.len() {
        assert(s.subrange(0, n) =~= s);
    } else {
        lemma_decimal_value_prefix(s, n + 1);
        assert(s.subrange(0, n + 1).drop_last() =~= s.subrange(0, n));
    }
}

/// A string of zeros denotes zero.
pub proof fn lemma_decimal_value_zeros(n: nat)
    ensures
        decimal_value(zeros(n)) == 0,
    decreases n,
{
    if n > 0 {
        assert(zeros(n).drop_last() =~= zeros((n - 1) as nat));
        lemma_decimal_value_zeros((n - 1) as nat);
    }
}

/// A digit string denotes zero only if each of its digits is `0`.
pub proof fn lemma_decimal_value_zero(s: Seq<char>)
    requires
        all_digits(s),
        decimal_value(s) == 0,
    ensures
        s == zeros(s.len()),
    decreases s.len(),
{
    if s.len() > 0 {
        lemma_all_digits_subrange(s, 0, s.len() - 1);
        assert(is_digit(s.last()));
        lemma_decimal_value_zero(s.drop_last());
        assert(s =~= s.drop_last().push(s.last()));
        assert(s =~= zeros(s.len()));
    }
}

/// A digit string in which some digit is not `0` does not denote zero.
pub proof fn lemma_decimal_value_positive(s: Seq<char>, at: int)
    requires
        all_digits(s),
        0 <= at < s.len(),
        s[at] != '0',
    ensures
        decimal_value(s) > 0,
{
    if decimal_value(s) == 0 {
        lemma_decimal_value_zero(s);
    }
}

/// Zeros in front of a digit string change neither whether it is one nor the
/// number it denotes.
pub proof fn lemma_leading_zeros(n: nat, s: Seq<char>)
    ensures
        all_digits(zeros(n) + s) == all_digits(s),
        decimal_value(zeros(n) + s) == decimal_value(s),
{
    let padded = zeros(n) + s;
    if all_digits(s) {
        assert forall|i: int| 0 <= i < padded.len() implies is_digit(#[trigger] padded[i]) by {
            if i >= n {
                assert(padded[i] == s[i - n]);
            }
        }
    }
    if all_digits(padded) {
        assert forall|i: int| 0 <= i < s.len() implies is_digit(#[trigger] s[i]) by {
            assert(s[i] == padded[i + n]);
        }
    }
    lemma_decimal_value_concat(zeros(n), s);
    lemma_decimal_value_zeros(n);
    assert(0 * pow10(s.len()) == 0);
}

/// A one followed by `n` zeros is a digit string and denotes ten to the `n`.
pub proof fn lemma_decimal_value_power(n: nat)
    ensures
        all_digits(seq!['1'] + zeros(n)),
        decimal_value(seq!['1'] + zeros(n)) == pow10(n),
{
    lemma_decimal_value_concat(seq!['1'], zeros(n));
    lemma_decimal_value_zeros(n);
    assert(seq!['1'].drop_last() =~= Seq::<char>::empty());
    assert(decimal_value(seq!['1']) == 1) by {
        reveal_with_fuel(decimal_value, 2);
    }
    assert(1 * pow10(n) == pow10(n));
}

} // verus!
