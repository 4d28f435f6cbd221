//! What the -illion and the -yllion systems share: reading digit strings,
//! Latin prefixes, and English names for the numbers below ten thousand.

use vstd::prelude::*;
use vstd::utf8::is_ascii_chars;
use crate::digits::all_digits;
use crate::digits::ASCII_NINE;
use crate::digits::ASCII_ZERO;
use crate::digits::decimal_value;
use crate::digits::is_digit;
use crate::digits::lemma_decimal_value_prefix;
use crate::digits::lemma_digits_are_ascii;
use crate::digits::zeros;

verus! {

/// Tests whether `s` holds nothing but the digits `0`..`9`.
pub fn is_all_digits(s: &str) -> (r: bool)
    ensures
        r == all_digits(s@),
{
    if !s.is_ascii() {
        proof {
            if all_digits(s@) {
                lemma_digits_are_ascii(s@);
            }
        }
        return false;
    }
    let n = s.as_bytes().len();
    proof {
        vstd::string::is_ascii_spec_bytes(s);
    }
    let mut i: usize = 0;
    while i < n
        invariant
            s.is_ascii(),
            n == s@.len(),
            i <= n,
            forall|j: int| 0 <= j < i ==> is_digit(#[trigger] s@[j]),
        decreases n - i,
    {
        let b = s.get_ascii(i);
        if b < ASCII_ZERO || b > ASCII_NINE {
            assert(!is_digit(s@[i as int]));
            return false;
        }
        assert(is_digit(s@[i as int]));
        i += 1;
    }
    true
}

/// Finds the first digit of `digits` that is not `0`; there is none where
/// every digit is `0`.
pub fn first_nonzero(digits: &str) -> (r: Option<usize>)
    requires
        all_digits(digits@),
    ensures
        match r {
            Some(i) => i < digits@.len() && digits@[i as int] != '0' && digits@.subrange(
                0,
                i as int,
            ) == zeros(i as nat),
            None => digits@ == zeros(digits@.len()),
        },
{
    let len = digits.as_bytes().len();
    proof {
        lemma_digits_are_ascii(digits@);
        vstd::string::is_ascii_spec_bytes(digits);
    }
    let mut i: usize = 0;
    while i < len
        invariant
            digits.is_ascii(),
            len == digits@.len(),
            i <= len,
            forall|j: int| 0 <= j < i ==> digits@[j] == '0',
        decreases len - i,
    {
        if digits.get_ascii(i) != ASCII_ZERO {
            assert(digits@.subrange(0, i as int) =~= zeros(i as nat));
            return Some(i);
        }
        i += 1;
    }
    assert(digits@ =~= zeros(len as nat));
    None
}

/// Reads the `ndigits` digits of `digits` that start at `index` as a number.
pub fn num_from_slice(digits: &str, index: usize, ndigits: usize) -> (n: usize)
    requires
        all_digits(digits@),
        index + ndigits <= digits@.len(),
        decimal_value(digits@.subrange(index as int, index + ndigits)) <= usize::MAX,
    ensures
        n == decimal_value(digits@.subrange(index as int, index + ndigits)),
{
    let len = digits.as_bytes().len();
    proof {
        lemma_digits_are_ascii(digits@);
        vstd::string::is_ascii_spec_bytes(digits);
    }
    let ghost part = digits@.subrange(index as int, index + ndigits);
    let mut n: usize = 0;
    let mut j: usize = 0;
    while j < ndigits
        invariant
            digits.is_ascii(),
            all_digits(digits@),
            len == digits@.len(),
            index + ndigits <= len,
            part == digits@.subrange(index as int, index + ndigits),
            decimal_value(part) <= usize::MAX,
            j <= ndigits,
            n == decimal_value(part.subrange(0, j as int)),
        decreases ndigits - j,
    {
        let b = digits.get_ascii(index + j);
        proof {
            let next = part.subrange(0, j + 1);
            assert(next.drop_last() =~= part.subrange(0, j as int));
            assert(next.last() == digits@[index + j]);
            assert(is_digit(digits@[index + j]));
            lemma_decimal_value_prefix(part, j + 1);
        }
        n = n * 10 + (b - ASCII_ZERO) as usize;
        j += 1;
    }
    assert(part.subrange(0, ndigits as int) =~= part);
    n
}

/// The Latin prefix of a number below ten that stands alone: `m` as in
/// million, `b` as in billion. Zero has `n`, as in the `nilli` of a chained name.
pub open spec fn latin_base(n: nat) -> Seq<char> {
    if n == 0 {
        "n"@
    } else if n == 1 {
        "m"@
    } else if n == 2 {
        "b"@
    } else if n == 3 {
        "tr"@
    } else if n == 4 {
        "quadr"@
    } else if n == 5 {
        "quint"@
    } else if n == 6 {
        "sext"@
    } else if n == 7 {
        "sept"@
    } else if n == 8 {
        "oct"@
    } else if n == 9 {
        "non"@
    } else {
        Seq::empty()
    }
}

/// The Latin prefix of the units digit `n` of a number from ten on.
pub open spec fn latin_unit(n: nat) -> Seq<char> {
    if n == 1 {
        "un"@
    } else if n == 2 {
        "duo"@
    } else if n == 3 {
        "tre"@
    } else if n == 4 {
        "quattuor"@
    } else if n == 5 {
        "quinqua"@
    } else if n == 6 {
        "se"@
    } else if n == 7 {
        "septe"@
    } else if n == 8 {
        "octo"@
    } else if n == 9 {
        "nove"@
    } else {
        Seq::empty()
    }
}

/// The Latin prefix of the tens digit `n`.
pub open spec fn latin_tens(n: nat) -> Seq<char> {
    if n == 1 {
        "deci"@
    } else if n == 2 {
        "viginti"@
    } else if n == 3 {
        "triginta"@
    } else if n == 4 {
        "quadraginta"@
    } else if n == 5 {
        "quinquaginta"@
    } else if n == 6 {
        "sexaginta"@
    } else if n == 7 {
        "septuaginta"@
    } else if n == 8 {
        "octoginta"@
    } else if n == 9 {
        "nonaginta"@
    } else {
        Seq::empty()
    }
}

/// The Latin prefix of the hundreds digit `n`.
pub open spec fn latin_hundreds(n: nat) -> Seq<char> {
    if n == 1 {
        "centi"@
    } else if n == 2 {
        "ducenti"@
    } else if n == 3 {
        "trecenti"@
    } else if n == 4 {
        "quadringenti"@
    } else if n == 5 {
        "quingenti"@
    } else if n == 6 {
        "sescenti"@
    } else if n == 7 {
        "septingenti"@
    } else if n == 8 {
        "octingenti"@
    } else if n == 9 {
        "nongenti"@
    } else {
        Seq::empty()
    }
}

/// The letter that joins the units digit `u` to the tens digit `t` that
/// follows it: `tre` becomes `tres` and `se` becomes `ses` or `sex`, `septe`
/// and `nove` take an `n` or an `m`. Most pairs are joined by nothing.
pub open spec fn tens_link(u: nat, t: nat) -> Seq<char> {
    if u == 3 && (2 <= t <= 5 || t == 8) {
        "s"@
    } else if u == 6 && 2 <= t <= 5 {
        "s"@
    } else if u == 6 && t == 8 {
        "x"@
    } else if (u == 7 || u == 9) && (t == 1 || 3 <= t <= 7) {
        "n"@
    } else if (u == 7 || u == 9) && (t == 2 || t == 8) {
        "m"@
    } else {
        Seq::empty()
    }
}

/// The letter that joins the units digit `u` to the hundreds digit `h` where
/// no tens digit stands between them.
pub open spec fn hundreds_link(u: nat, h: nat) -> Seq<char> {
    if u == 3 && (h == 1 || 3 <= h <= 5 || h == 8) {
        "s"@
    } else if u == 6 && (h == 1 || h == 8) {
        "x"@
    } else if u == 6 && 3 <= h <= 5 {
        "s"@
    } else if (u == 7 || u == 9) && 1 <= h <= 7 {
        "n"@
    } else if (u == 7 || u == 9) && h == 8 {
        "m"@
    } else {
        Seq::empty()
    }
}

/// The Latin prefix of `n` from ten on, vowel at the end included: units,
/// then tens, then hundreds.
pub open spec fn latin_stem(n: nat) -> Seq<char> {
    let h = n / 100;
    let t = n % 100 / 10;
    let u = n % 10;
    if t > 0 {
        latin_unit(u) + tens_link(u, t) + latin_tens(t) + latin_hundreds(h)
    } else {
        latin_unit(u) + hundreds_link(u, h) + latin_hundreds(h)
    }
}

/// The Latin prefix of `n`, for `n` below one thousand, ready to take an
/// ending such as `illion` or `yllion`. From ten on it is the stem without
/// its last vowel.
#[verifier::opaque]
pub open spec fn latin_prefix_name(n: nat) -> Seq<char> {
    if n < 10 {
        latin_base(n)
    } else {
        latin_stem(n).drop_last()
    }
}

/// Looks up `latin_base`.
fn latin_base_word(n: usize) -> (w: &'static str)
    ensures
        w@ == latin_base(n as nat),
{
    proof {
        reveal_strlit("");
    }
    match n {
        0 => "n",
        1 => "m",
        2 => "b",
        3 => "tr",
        4 => "quadr",
        5 => "quint",
        6 => "sext",
        7 => "sept",
        8 => "oct",
        9 => "non",
        _ => "",
    }
}

/// Looks up `latin_unit`.
fn latin_unit_word(n: usize) -> (w: &'static str)
    ensures
        w@ == latin_unit(n as nat),
{
    proof {
        reveal_strlit("");
    }
    match n {
        1 => "un",
        2 => "duo",
        3 => "tre",
        4 => "quattuor",
        5 => "quinqua",
        6 => "se",
        7 => "septe",
        8 => "octo",
        9 => "nove",
        _ => "",
    }
}

/// Looks up `latin_tens`.
fn latin_tens_word(n: usize) -> (w: &'static str)
    ensures
        w@ == latin_tens(n as nat),
{
    proof {
        reveal_strlit("");
    }
    match n {
        1 => "deci",
        2 => "viginti",
        3 => "triginta",
        4 => "quadraginta",
        5 => "quinquaginta",
        6 => "sexaginta",
        7 => "septuaginta",
        8 => "octoginta",
        9 => "nonaginta",
        _ => "",
    }
}

/// Looks up `latin_hundreds`.
fn latin_hundreds_word(n: usize) -> (w: &'static str)
    ensures
        w@ == latin_hundreds(n as nat),
{
    proof {
        reveal_strlit("");
    }
    match n {
        1 => "centi",
        2 => "ducenti",
        3 => "trecenti",
        4 => "quadringenti",
        5 => "quingenti",
        6 => "sescenti",
        7 => "septingenti",
        8 => "octingenti",
        9 => "nongenti",
        _ => "",
    }
}

/// Looks up `tens_link`.
fn tens_link_word(u: usize, t: usize) -> (w: &'static str)
    ensures
        w@ == tens_link(u as nat, t as nat),
{
    proof {
        reveal_strlit("");
    }
    if u == 3 && ((2 <= t && t <= 5) || t == 8) {
        "s"
    } else if u == 6 && 2 <= t && t <= 5 {
        "s"
    } else if u == 6 && t == 8 {
        "x"
    } else if (u == 7 || u == 9) && (t == 1 || (3 <= t && t <= 7)) {
        "n"
    } else if (u == 7 || u == 9) && (t == 2 || t == 8) {
        "m"
    } else {
        ""
    }
}

/// Looks up `hundreds_link`.
fn hundreds_link_word(u: usize, h: usize) -> (w: &'static str)
    ensures
        w@ == hundreds_link(u as nat, h as nat),
{
    proof {
        reveal_strlit("");
    }
    if u == 3 && (h == 1 || (3 <= h && h <= 5) || h == 8) {
        "s"
    } else if u == 6 && (h == 1 || h == 8) {
        "x"
    } else if u == 6 && 3 <= h && h <= 5 {
        "s"
    } else if (u == 7 || u == 9) && 1 <= h && h <= 7 {
        "n"
    } else if (u == 7 || u == 9) && h == 8 {
        "m"
    } else {
        ""
    }
}

/// The parts of a stem are ASCII, and the tens and hundreds prefixes of a
/// digit other than zero are not empty.
proof fn lemma_latin_parts(u: nat, t: nat, h: nat)
    ensures
        is_ascii_chars(latin_unit(u)),
        is_ascii_chars(tens_link(u, t)),
        is_ascii_chars(hundreds_link(u, h)),
        is_ascii_chars(latin_tens(t)),
        is_ascii_chars(latin_hundreds(h)),
        1 <= t <= 9 ==> latin_tens(t).len() > 0,
        1 <= h <= 9 ==> latin_hundreds(h).len() > 0,
{
    reveal_strlit("s");
    reveal_strlit("x");
    reveal_strlit("n");
    reveal_strlit("m");
    reveal_strlit("un");
    reveal_strlit("duo");
    reveal_strlit("tre");
    reveal_strlit("quattuor");
    reveal_strlit("quinqua");
    reveal_strlit("se");
    reveal_strlit("septe");
    reveal_strlit("octo");
    reveal_strlit("nove");
    reveal_strlit("deci");
    reveal_strlit("viginti");
    reveal_strlit("triginta");
    reveal_strlit("quadraginta");
    reveal_strlit("quinquaginta");
    reveal_strlit("sexaginta");
    reveal_strlit("septuaginta");
    reveal_strlit("octoginta");
    reveal_strlit("nonaginta");
    reveal_strlit("centi");
    reveal_strlit("ducenti");
    reveal_strlit("trecenti");
    reveal_strlit("quadringenti");
    reveal_strlit("quingenti");
    reveal_strlit("sescenti");
    reveal_strlit("septingenti");
    reveal_strlit("octingenti");
    reveal_strlit("nongenti");
}

/// The stem of a number from ten to 999 is ASCII and not empty.
proof fn lemma_latin_stem(n: nat)
    requires
        10 <= n < 1000,
    ensures
        is_ascii_chars(latin_stem(n)),
        latin_stem(n).len() > 0,
{
    lemma_latin_parts(n % 10, n % 100 / 10, n / 100);
}

/// `s` without its last character.
fn without_last(s: &str) -> (r: String)
    requires
        s.is_ascii(),
        s@.len() > 0,
    ensures
        r@ == s@.drop_last(),
{
    let n = s.as_bytes().len();
    proof {
        vstd::string::is_ascii_spec_bytes(s);
    }
    String::from_str(s.substring_ascii(0, n - 1))
}

/// Gives the Latin prefix of `num`, to which `illion` or `yllion` can be
/// joined. There is one for each number below one thousand and none beyond.
pub fn latin_prefix(num: usize) -> (r: Option<String>)
    ensures
        num < 1000 ==> r is Some && r.unwrap()@ == latin_prefix_name(num as nat),
        num >= 1000 ==> r is None,
{
    reveal(latin_prefix_name);
    if num >= 1000 {
        return None;
    }
    if num < 10 {
        return Some(String::from_str(latin_base_word(num)));
    }
    let hs = num / 100;
    let ts = num % 100 / 10;
    let us = num % 10;

    let mut stem = String::from_str(latin_unit_word(us));
    if ts > 0 {
        stem.append(tens_link_word(us, ts));
        stem.append(latin_tens_word(ts));
        stem.append(latin_hundreds_word(hs));
    } else {
        stem.append(hundreds_link_word(us, hs));
        stem.append(latin_hundreds_word(hs));
    }
    proof {
        lemma_latin_stem(num as nat);
    }
    Some(without_last(stem.as_str()))
}

/// The English name of `n` from one to nineteen.
pub open spec fn small_name(n: nat) -> Seq<char> {
    if n == 1 {
        "one"@
    } else if n == 2 {
        "two"@
    } else if n == 3 {
        "three"@
    } else if n == 4 {
        "four"@
    } else if n == 5 {
        "five"@
    } else if n == 6 {
        "six"@
    } else if n == 7 {
        "seven"@
    } else if n == 8 {
        "eight"@
    } else if n == 9 {
        "nine"@
    } else if n == 10 {
        "ten"@
    } else if n == 11 {
        "eleven"@
    } else if n == 12 {
        "twelve"@
    } else if n == 13 {
        "thirteen"@
    } else if n == 14 {
        "fourteen"@
    } else if n == 15 {
        "fifteen"@
    } else if n == 16 {
        "sixteen"@
    } else if n == 17 {
        "seventeen"@
    } else if n == 18 {
        "eighteen"@
    } else if n == 19 {
        "nineteen"@
    } else {
        Seq::empty()
    }
}

/// The English name of `n` tens, from twenty to ninety.
pub open spec fn tens_name(n: nat) -> Seq<char> {
    if n == 2 {
        "twenty"@
    } else if n == 3 {
        "thirty"@
    } else if n == 4 {
        "forty"@
    } else if n == 5 {
        "fifty"@
    } else if n == 6 {
        "sixty"@
    } else if n == 7 {
        "seventy"@
    } else if n == 8 {
        "eighty"@
    } else if n == 9 {
        "ninety"@
    } else {
        Seq::empty()
    }
}

/// The English name of `n` below one hundred; zero has the empty name.
pub open spec fn pair_name(n: nat) -> Seq<char> {
    if n < 20 {
        small_name(n)
    } else if n % 10 == 0 {
        tens_name(n / 10)
    } else {
        tens_name(n / 10) + " "@ + small_name(n % 10)
    }
}

/// The English name of `n` below ten thousand, counted in hundreds, without
/// the word thousand: 4200 is "forty two hundred". Zero has the empty name.
#[verifier::opaque]
pub open spec fn myriad_name(n: nat) -> Seq<char> {
    let high = n / 100;
    let low = n % 100;
    if high == 0 {
        pair_name(low)
    } else if low == 0 {
        pair_name(high) + " hundred"@
    } else {
        pair_name(high) + " hundred "@ + pair_name(low)
    }
}

/// Looks up `small_name`.
fn small_word(n: usize) -> (w: &'static str)
    ensures
        w@ == small_name(n as nat),
{
    proof {
        reveal_strlit("");
    }
    match n {
        1 => "one",
        2 => "two",
        3 => "three",
        4 => "four",
        5 => "five",
        6 => "six",
        7 => "seven",
        8 => "eight",
        9 => "nine",
        10 => "ten",
        11 => "eleven",
        12 => "twelve",
        13 => "thirteen",
        14 => "fourteen",
        15 => "fifteen",
        16 => "sixteen",
        17 => "seventeen",
        18 => "eighteen",
        19 => "nineteen",
        _ => "",
    }
}

/// Looks up `tens_name`.
fn tens_word(n: usize) -> (w: &'static str)
    ensures
        w@ == tens_name(n as nat),
{
    proof {
        reveal_strlit("");
    }
    match n {
        2 => "twenty",
        3 => "thirty",
        4 => "forty",
        5 => "fifty",
        6 => "sixty",
        7 => "seventy",
        8 => "eighty",
        9 => "ninety",
        _ => "",
    }
}

/// Names the two-digit number with the digits `tens` and `units`.
fn name_hundreds(tens: usize, units: usize) -> (r: String)
    requires
        tens < 10,
        units < 10,
    ensures
        r@ == pair_name((10 * tens + units) as nat),
{
    if tens < 2 {
        String::from_str(small_word(10 * tens + units))
    } else {
        let mut output = String::from_str(tens_word(tens));
        if units > 0 {
            output.append(" ");
            output.append(small_word(units));
        }
        output
    }
}

/// Names a number below ten thousand in English, counting in hundreds and
/// never in thousands, so that the name fits a group of three digits as well
/// as one of four. There is no name from ten thousand on.
pub fn myriad_number(num: usize) -> (r: Option<String>)
    ensures
        num < 10000 ==> r is Some && r.unwrap()@ == myriad_name(num as nat),
        num >= 10000 ==> r is None,
{
    reveal(myriad_name);
    if num >= 10000 {
        return None;
    }
    let high = num / 100;
    let low = num % 100;

    let mut output = name_hundreds(high / 10, high % 10);
    if high != 0 {
        if low != 0 {
            output.append(" hundred ");
        } else {
            output.append(" hundred");
        }
    }
    if low != 0 {
        let rest = name_hundreds(low / 10, low % 10);
        output.append(rest.as_str());
    }
    Some(output)
}

} // verus!
