use googology::common::first_nonzero;
use googology::common::is_all_digits;
use googology::common::latin_prefix;
use googology::common::myriad_number;
use googology::common::num_from_slice;

fn prefix(n: usize) -> String {
    latin_prefix(n).unwrap()
}

fn myriad(n: usize) -> String {
    myriad_number(n).unwrap()
}

#[test]
fn digits_are_recognised() {
    assert!(is_all_digits("0123456789"));
    assert!(is_all_digits(""));
    assert!(!is_all_digits("12a"));
    assert!(!is_all_digits("/"));
    assert!(!is_all_digits(":"));
    assert!(!is_all_digits("١٢"));
    assert!(!is_all_digits("1２"));
}

#[test]
fn first_digit_that_counts() {
    assert_eq!(first_nonzero("0012"), Some(2));
    assert_eq!(first_nonzero("12"), Some(0));
    assert_eq!(first_nonzero("0000"), None);
    assert_eq!(first_nonzero(""), None);
}

#[test]
fn slices_are_read_as_numbers() {
    assert_eq!(num_from_slice("1234567", 0, 1), 1);
    assert_eq!(num_from_slice("1234567", 1, 3), 234);
    assert_eq!(num_from_slice("1234567", 4, 3), 567);
    assert_eq!(num_from_slice("1200426208", 2, 4), 42);
    assert_eq!(num_from_slice("0000", 0, 4), 0);
    assert_eq!(num_from_slice("4294967295", 0, 10), 4294967295);
    assert_eq!(num_from_slice("1234567", 3, 0), 0);
    assert_eq!(num_from_slice("1234567", 7, 0), 0);
}

#[test]
fn prefixes_below_ten() {
    let expected = ["n", "m", "b", "tr", "quadr", "quint", "sext", "sept", "oct", "non"];
    for n in 0..10 {
        assert_eq!(prefix(n), expected[n]);
    }
}

#[test]
fn prefixes_of_the_tens() {
    let expected = [
        "dec",
        "vigint",
        "trigint",
        "quadragint",
        "quinquagint",
        "sexagint",
        "septuagint",
        "octogint",
        "nonagint",
    ];
    for t in 1..10 {
        assert_eq!(prefix(10 * t), expected[t - 1]);
    }
}

#[test]
fn prefixes_of_the_hundreds() {
    let expected = [
        "cent",
        "ducent",
        "trecent",
        "quadringent",
        "quingent",
        "sescent",
        "septingent",
        "octingent",
        "nongent",
    ];
    for h in 1..10 {
        assert_eq!(prefix(100 * h), expected[h - 1]);
    }
}

#[test]
fn prefixes_from_eleven_to_nineteen() {
    let expected = [
        "undec",
        "duodec",
        "tredec",
        "quattuordec",
        "quinquadec",
        "sedec",
        "septendec",
        "octodec",
        "novendec",
    ];
    for u in 1..10 {
        assert_eq!(prefix(10 + u), expected[u - 1]);
    }
}

#[test]
fn units_join_the_tens() {
    // tre takes an s before viginti, triginta, quadraginta, quinquaginta, octoginta.
    let tre = ["tre", "tres", "tres", "tres", "tres", "tre", "tre", "tres", "tre"];
    // se takes an s before the same but octoginta, where it takes an x.
    let se = ["se", "ses", "ses", "ses", "ses", "se", "se", "sex", "se"];
    // septe and nove take an m before viginti and octoginta, nothing before
    // nonaginta, and an n elsewhere.
    let septe = [
        "septen", "septem", "septen", "septen", "septen", "septen", "septen", "septem", "septe",
    ];
    let nove = ["noven", "novem", "noven", "noven", "noven", "noven", "noven", "novem", "nove"];
    for t in 1..10 {
        let tens = prefix(10 * t);
        assert_eq!(prefix(10 * t + 3), format!("{}{}", tre[t - 1], tens));
        assert_eq!(prefix(10 * t + 6), format!("{}{}", se[t - 1], tens));
        assert_eq!(prefix(10 * t + 7), format!("{}{}", septe[t - 1], tens));
        assert_eq!(prefix(10 * t + 9), format!("{}{}", nove[t - 1], tens));
        for (u, unit) in [(1, "un"), (2, "duo"), (4, "quattuor"), (5, "quinqua"), (8, "octo")] {
            assert_eq!(prefix(10 * t + u), format!("{}{}", unit, tens));
        }
    }
}

#[test]
fn units_join_the_hundreds() {
    let tre = ["tres", "tre", "tres", "tres", "tres", "tre", "tre", "tres", "tre"];
    let se = ["sex", "se", "ses", "ses", "ses", "se", "se", "sex", "se"];
    let septe = [
        "septen", "septen", "septen", "septen", "septen", "septen", "septen", "septem", "septe",
    ];
    let nove = ["noven", "noven", "noven", "noven", "noven", "noven", "noven", "novem", "nove"];
    for h in 1..10 {
        let hundreds = prefix(100 * h);
        assert_eq!(prefix(100 * h + 3), format!("{}{}", tre[h - 1], hundreds));
        assert_eq!(prefix(100 * h + 6), format!("{}{}", se[h - 1], hundreds));
        assert_eq!(prefix(100 * h + 7), format!("{}{}", septe[h - 1], hundreds));
        assert_eq!(prefix(100 * h + 9), format!("{}{}", nove[h - 1], hundreds));
        for (u, unit) in [(1, "un"), (2, "duo"), (4, "quattuor"), (5, "quinqua"), (8, "octo")] {
            assert_eq!(prefix(100 * h + u), format!("{}{}", unit, hundreds));
        }
    }
}

#[test]
fn prefixes_with_three_digits() {
    assert_eq!(prefix(110), "decicent");
    assert_eq!(prefix(123), "tresviginticent");
    assert_eq!(prefix(128), "octoviginticent");
    assert_eq!(prefix(231), "untrigintaducent");
    assert_eq!(prefix(303), "trestrecent");
    assert_eq!(prefix(386), "sexoctogintatrecent");
    assert_eq!(prefix(806), "sexoctingent");
    assert_eq!(prefix(999), "novenonagintanongent");
}

#[test]
fn no_prefix_from_one_thousand_on() {
    assert_eq!(latin_prefix(1000), None);
    assert_eq!(latin_prefix(1001), None);
    assert_eq!(latin_prefix(usize::MAX), None);
    for n in 0..1000 {
        assert!(latin_prefix(n).is_some());
    }
}

#[test]
fn myriads_count_in_hundreds() {
    assert_eq!(myriad(0), "");
    assert_eq!(myriad(1), "one");
    assert_eq!(myriad(10), "ten");
    assert_eq!(myriad(11), "eleven");
    assert_eq!(myriad(19), "nineteen");
    assert_eq!(myriad(20), "twenty");
    assert_eq!(myriad(21), "twenty one");
    assert_eq!(myriad(40), "forty");
    assert_eq!(myriad(99), "ninety nine");
    assert_eq!(myriad(100), "one hundred");
    assert_eq!(myriad(101), "one hundred one");
    assert_eq!(myriad(110), "one hundred ten");
    assert_eq!(myriad(999), "nine hundred ninety nine");
    assert_eq!(myriad(1000), "ten hundred");
    assert_eq!(myriad(1001), "ten hundred one");
    assert_eq!(myriad(1900), "nineteen hundred");
    assert_eq!(myriad(2000), "twenty hundred");
    assert_eq!(myriad(4200), "forty two hundred");
    assert_eq!(myriad(8065), "eighty hundred sixty five");
    assert_eq!(myriad(9999), "ninety nine hundred ninety nine");
}

#[test]
fn every_name_up_to_nineteen_and_every_ten() {
    let small = [
        "one", "two", "three", "four", "five", "six", "seven", "eight", "nine", "ten", "eleven",
        "twelve", "thirteen", "fourteen", "fifteen", "sixteen", "seventeen", "eighteen",
        "nineteen",
    ];
    for n in 1..20 {
        assert_eq!(myriad(n), small[n - 1]);
    }
    let tens = ["twenty", "thirty", "forty", "fifty", "sixty", "seventy", "eighty", "ninety"];
    for t in 2..10 {
        assert_eq!(myriad(10 * t), tens[t - 2]);
    }
}

#[test]
fn no_myriad_from_ten_thousand_on() {
    assert_eq!(myriad_number(10000), None);
    assert_eq!(myriad_number(usize::MAX), None);
}
