//! Why the two namers of the -yllion system agree on the powers of ten.
//!
//! Read digit by digit, ten to the `n` is one group other than zero at place
//! `n / 4` and groups of zeros below it. The first group writes the word of
//! its place. A group of zeros writes its word only where that outranks the
//! word written last, and the rank of a place is one more than the number of
//! times two divides it. So, going down from a place, the next word is
//! written exactly at the place that has the lowest set bit taken away: the
//! places in between are divisible by two less often, that place more often.
//! The words written are therefore one for each bit of `n / 4` that is set,
//! the lowest bit first, which is how the name is read off the exponent.

use vstd::prelude::*;
use crate::common::latin_prefix_name;
use crate::common::myriad_name;
use crate::digits::lemma_pow10_positive;
use crate::digits::lemma_pow10_small;
use crate::digits::pow10;
use crate::knuth_yllion::groups_reading;
use crate::knuth_yllion::lemma_groups_reading_step;
use crate::knuth_yllion::number_name;
use crate::knuth_yllion::power_name;
use crate::knuth_yllion::twos_in;
use crate::knuth_yllion::yllion_terms;

verus! {

/// The word of the places that two divides `t` times: `myriad`, then the
/// -yllions.
spec fn word(t: nat) -> Seq<char> {
    if t == 0 {
        "myriad"@
    } else {
        latin_prefix_name(t) + "yllion"@
    }
}

/// The place `c` with its lowest set bit taken away.
spec fn below(c: nat) -> nat
    decreases c,
{
    if c == 0 {
        0
    } else if c % 2 == 1 {
        (c - 1) as nat
    } else {
        2 * below(c / 2)
    }
}

/// Taking a bit away makes a place smaller.
proof fn lemma_below_is_less(c: nat)
    requires
        c > 0,
    ensures
        below(c) < c,
    decreases c,
{
    if c % 2 == 0 {
        lemma_below_is_less(c / 2);
    }
}

/// The words written from the place `top` down to the place `k`, where the
/// group at `top` is the first and all groups below it are zeros.
spec fn words_down_to(top: nat, k: nat) -> Seq<char>
    decreases top,
{
    if top == 0 {
        Seq::empty()
    } else if below(top) < k {
        " "@ + word(twos_in(top))
    } else {
        proof {
            lemma_below_is_less(top);
        }
        " "@ + word(twos_in(top)) + words_down_to(below(top), k)
    }
}

/// The place whose word is the last one written from `top` down to `k`.
spec fn last_place(top: nat, k: nat) -> nat
    decreases top,
{
    if top == 0 || below(top) < k {
        top
    } else {
        proof {
            lemma_below_is_less(top);
        }
        last_place(below(top), k)
    }
}

/// The words for the bits of `c` that are set, the lowest first, where the
/// word of the lowest place is the one that two divides `shift` times.
spec fn bit_words(c: nat, shift: nat) -> Seq<char>
    decreases c,
{
    if c == 0 {
        Seq::empty()
    } else if c % 2 == 1 {
        " "@ + word(shift) + bit_words(c / 2, shift + 1)
    } else {
        bit_words(c / 2, shift + 1)
    }
}

/// The words written on the way from `c` down to zero, each place reached by
/// taking the lowest set bit away from the one before.
spec fn chain_words(c: nat, shift: nat) -> Seq<char>
    decreases c,
{
    if c == 0 {
        Seq::empty()
    } else {
        proof {
            lemma_below_is_less(c);
        }
        " "@ + word(twos_in(c) + shift) + chain_words(below(c), shift)
    }
}

/// The next place down from `c` is a smaller one, and unless it is the units
/// place it is divisible by two more often than `c`.
proof fn lemma_below(c: nat)
    requires
        c > 0,
    ensures
        below(c) < c,
        below(c) > 0 ==> twos_in(below(c)) > twos_in(c),
    decreases c,
{
    if c % 2 == 0 {
        lemma_below(c / 2);
        assert(below(c) == 2 * below(c / 2));
        if below(c) > 0 {
            assert(below(c) / 2 == below(c / 2));
            assert(twos_in(below(c)) == 1 + twos_in(below(c / 2)));
        }
    } else {
        if below(c) > 0 {
            assert(below(c) % 2 == 0);
        }
    }
}

/// A place between `c` and the next one down is divisible by two less often
/// than `c`.
proof fn lemma_between(c: nat, k: nat)
    requires
        below(c) < k < c,
    ensures
        twos_in(k) < twos_in(c),
    decreases c,
{
    if c % 2 == 0 {
        if k % 2 == 0 {
            lemma_between(c / 2, k / 2);
        }
    }
}

/// One place further down: either it is the next place that writes, or
/// nothing changes.
proof fn lemma_one_place_down(top: nat, k: nat)
    requires
        1 <= k < top,
    ensures
        below(last_place(top, k + 1)) <= k < last_place(top, k + 1),
        k == below(last_place(top, k + 1)) ==> last_place(top, k) == k && words_down_to(top, k)
            == words_down_to(top, k + 1) + " "@ + word(twos_in(k)),
        k != below(last_place(top, k + 1)) ==> last_place(top, k) == last_place(top, k + 1)
            && words_down_to(top, k) == words_down_to(top, k + 1),
    decreases top,
{
    lemma_below(top);
    if below(top) < k + 1 {
        if below(top) == k {
            lemma_below(k);
            assert(words_down_to(k, k) == " "@ + word(twos_in(k)));
            assert(words_down_to(top, k) =~= words_down_to(top, k + 1) + " "@ + word(twos_in(k)));
        }
    } else {
        lemma_one_place_down(below(top), k);
        let a = last_place(top, k + 1);
        if k == below(a) {
            assert(words_down_to(top, k) =~= words_down_to(top, k + 1) + " "@ + word(twos_in(k)));
        }
    }
}

/// What has been read of ten to the `m` down to its lowest place `k`, which
/// is not the units place.
proof fn lemma_power_reading(m: nat, k: nat)
    requires
        k >= 1,
    ensures
        groups_reading(pow10(m), k) == (
            myriad_name(pow10(m % 4)) + words_down_to(k + m / 4, k),
            twos_in(last_place(k + m / 4, k)) + 1,
        ),
    decreases m,
{
    let top = k + m / 4;
    if m < 4 {
        lemma_pow10_small();
        lemma_below(k);
        lemma_groups_reading_step(0, pow10(m), k);
        assert(groups_reading(pow10(m), k).0 =~= myriad_name(pow10(m)) + words_down_to(k, k));
    } else {
        let rest = (m - 4) as nat;
        assert(pow10(m) == pow10(rest) * 10000) by {
            reveal_with_fuel(pow10, 5);
        }
        lemma_pow10_positive(rest);
        lemma_groups_reading_step(pow10(rest), 0, k);
        lemma_power_reading(rest, k + 1);
        lemma_one_place_down(top, k);
        let a = last_place(top, k + 1);
        if k == below(a) {
            lemma_below(a);
            assert(groups_reading(pow10(m), k).0 =~= myriad_name(pow10(m % 4)) + words_down_to(
                top,
                k,
            ));
        } else {
            lemma_between(a, k);
        }
    }
}

/// Doubling a place moves every word one rank up.
proof fn lemma_chain_words_double(h: nat, shift: nat)
    ensures
        chain_words(2 * h, shift) == chain_words(h, shift + 1),
    decreases h,
{
    if h > 0 {
        lemma_below(h);
        lemma_chain_words_double(below(h), shift);
        assert((2 * h) / 2 == h);
        assert(twos_in(2 * h) == 1 + twos_in(h));
        assert(below(2 * h) == 2 * below(h));
    }
}

/// Going down from `c` writes one word for each bit of `c` that is set, the
/// lowest bit first.
proof fn lemma_chain_words_are_bit_words(c: nat, shift: nat)
    ensures
        chain_words(c, shift) == bit_words(c, shift),
    decreases c,
{
    if c > 0 {
        lemma_chain_words_double(c / 2, shift);
        lemma_chain_words_are_bit_words(c / 2, shift + 1);
        if c % 2 == 1 {
            assert(below(c) == 2 * (c / 2));
        } else {
            assert(c == 2 * (c / 2));
        }
    }
}

/// Down to the place above the units, every place on the way from `top` to
/// zero has written its word.
proof fn lemma_words_down_to_one(top: nat)
    ensures
        words_down_to(top, 1) == chain_words(top, 0),
    decreases top,
{
    if top > 0 {
        lemma_below(top);
        lemma_words_down_to_one(below(top));
        if below(top) < 1 {
            assert(words_down_to(top, 1) =~= chain_words(top, 0));
        }
    }
}

/// Above the lowest place every word is an -yllion.
proof fn lemma_bit_words_are_yllion_terms(bits: nat, index: nat)
    requires
        index >= 1,
    ensures
        bit_words(bits, index) == yllion_terms(bits, index),
    decreases bits,
{
    if bits > 0 {
        lemma_bit_words_are_yllion_terms(bits / 2, index + 1);
        if bits % 2 == 1 {
            assert(bit_words(bits, index) =~= yllion_terms(bits, index));
        }
    }
}

/// One, ten, one hundred and ten hundred are what the two lowest bits of the
/// exponent say.
proof fn lemma_leading_words(n: nat)
    ensures
        myriad_name(pow10(n % 4)) == (if n % 2 == 1 {
            "ten"@
        } else {
            "one"@
        }) + (if n / 2 % 2 == 1 {
            " hundred"@
        } else {
            Seq::<char>::empty()
        }),
{
    reveal(myriad_name);
    lemma_pow10_small();
    let unit = if n % 2 == 1 {
        "ten"@
    } else {
        "one"@
    };
    let hundred = if n / 2 % 2 == 1 {
        " hundred"@
    } else {
        Seq::<char>::empty()
    };
    assert(myriad_name(pow10(n % 4)) =~= unit + hundred);
}

/// The words for the bits of `top` are `myriad` for the lowest bit and the
/// -yllion terms for the bits above it.
proof fn lemma_words_are_terms(top: nat)
    ensures
        words_down_to(top, 1) == (if top % 2 == 1 {
            " myriad"@
        } else {
            Seq::<char>::empty()
        }) + yllion_terms(top / 2, 1),
{
    lemma_words_down_to_one(top);
    lemma_chain_words_are_bit_words(top, 0);
    lemma_bit_words_are_yllion_terms(top / 2, 1);
    reveal_strlit(" ");
    reveal_strlit("myriad");
    reveal_strlit(" myriad");
    assert(" "@ + "myriad"@ =~= " myriad"@);
    assert(bit_words(top, 0) =~= (if top % 2 == 1 {
        " myriad"@
    } else {
        Seq::<char>::empty()
    }) + yllion_terms(top / 2, 1));
}

/// The name of ten to the `n`, read from its digits, is the name read off
/// the bits of `n`.
pub proof fn lemma_power_name(n: nat)
    ensures
        number_name(pow10(n)) == power_name(n),
{
    let top = n / 4;
    lemma_pow10_positive(n);
    lemma_leading_words(n);
    if n < 4 {
        lemma_pow10_small();
        lemma_groups_reading_step(0, pow10(n), 0);
        assert(number_name(pow10(n)) =~= power_name(n));
    } else {
        let rest = (n - 4) as nat;
        assert(pow10(n) == pow10(rest) * 10000) by {
            reveal_with_fuel(pow10, 5);
        }
        lemma_pow10_positive(rest);
        lemma_groups_reading_step(pow10(rest), 0, 0);
        lemma_power_reading(rest, 1);
        assert(1 + rest / 4 == top);
        lemma_words_are_terms(top);
        assert(top % 2 == n / 4 % 2 && top / 2 == n / 8);
        assert(number_name(pow10(n)) =~= power_name(n));
    }
}

} // verus!
