use googology::conway_wechsler::full_name;
use googology::conway_wechsler::power_of_ten;
use googology::conway_wechsler::Scale;
use googology::ParseError;

const SCALES: [Scale; 3] = [Scale::Short, Scale::LongBritish, Scale::LongPeletier];

#[test]
fn very_small_numbers() -> Result<(), ParseError> {
    let zero_ss = full_name("0", Scale::Short)?;
    let zero_lp = full_name("0", Scale::LongPeletier)?;
    assert_eq!("zero", zero_ss.as_str());
    assert_eq!("zero", zero_lp.as_str());
    Ok(())
}

#[test]
fn conway_wechsler_small_numbers() -> Result<(), ParseError> {
    let twelve_ss = full_name("12", Scale::Short)?;
    let twelve_lb = full_name("12", Scale::LongBritish)?;
    assert_eq!("twelve", twelve_ss.as_str());
    assert_eq!("twelve", twelve_lb.as_str());
    Ok(())
}

#[test]
fn large_numbers() -> Result<(), ParseError> {
    let billion = full_name("1000000000", Scale::Short)?;
    let milliard = full_name("1000000000", Scale::LongPeletier)?;
    let thousand_million = full_name("1000000000", Scale::LongBritish)?;
    assert_eq!("one billion", billion.as_str());
    assert_eq!("one milliard", milliard.as_str());
    assert_eq!("one thousand million", thousand_million.as_str());
    Ok(())
}

#[test]
fn large_powers() -> Result<(), ParseError> {
    let googol_ss = power_of_ten("100", Scale::Short)?;
    let googol_lb = power_of_ten("100", Scale::LongBritish)?;
    let googol_lp = power_of_ten("100", Scale::LongPeletier)?;
    assert_eq!("ten duotrigintillion", googol_ss.as_str());
    assert_eq!("ten thousand sedecillion", googol_lb.as_str());
    assert_eq!("ten sedecilliard", googol_lp.as_str());
    Ok(())
}

#[test]
fn zero_is_zero_on_every_scale() {
    for scale in SCALES {
        assert_eq!(full_name("0", scale), Ok(String::from("zero")));
        assert_eq!(full_name("000", scale), Ok(String::from("zero")));
        assert_eq!(full_name("0000000000000", scale), Ok(String::from("zero")));
    }
}

#[test]
fn leading_zeros_do_not_count() {
    for scale in SCALES {
        assert_eq!(full_name("0012", scale), full_name("12", scale));
        assert_eq!(full_name("0012", scale), Ok(String::from("twelve")));
        assert_eq!(full_name("0001000000", scale), full_name("1000000", scale));
        assert_eq!(full_name("000019000000042", scale), full_name("19000000042", scale));
    }
}

#[test]
fn empty_input_is_refused() {
    for scale in SCALES {
        assert_eq!(full_name("", scale), Err(ParseError::Empty));
        assert_eq!(power_of_ten("", scale), Err(ParseError::Empty));
    }
}

#[test]
fn other_characters_are_refused() {
    for scale in SCALES {
        for input in ["a", "12a", "1 2", "-1", "+1", "1_000", "1.5", " ", "١٢", "12\n"] {
            assert_eq!(full_name(input, scale), Err(ParseError::InvalidDigit));
            assert_eq!(power_of_ten(input, scale), Err(ParseError::InvalidDigit));
        }
    }
}

#[test]
fn groups_of_three() {
    assert_eq!(full_name("1", Scale::Short), Ok(String::from("one")));
    assert_eq!(full_name("100", Scale::Short), Ok(String::from("one hundred")));
    assert_eq!(full_name("999", Scale::Short), Ok(String::from("nine hundred ninety nine")));
    assert_eq!(full_name("1000", Scale::Short), Ok(String::from("one thousand")));
    assert_eq!(full_name("1001", Scale::Short), Ok(String::from("one thousand one")));
    assert_eq!(
        full_name("123456", Scale::Short),
        Ok(String::from("one hundred twenty three thousand four hundred fifty six"))
    );
    assert_eq!(
        full_name("1234567", Scale::Short),
        Ok(String::from(
            "one million two hundred thirty four thousand five hundred sixty seven"
        ))
    );
    assert_eq!(full_name("1000001", Scale::Short), Ok(String::from("one million one")));
    assert_eq!(
        full_name("40000000000", Scale::Short),
        Ok(String::from("forty billion"))
    );
}

#[test]
fn the_scales_differ_from_the_ninth_power_on() {
    let digits = "19000000042";
    assert_eq!(
        full_name(digits, Scale::Short),
        Ok(String::from("nineteen billion forty two"))
    );
    assert_eq!(
        full_name(digits, Scale::LongPeletier),
        Ok(String::from("nineteen milliard forty two"))
    );
    assert_eq!(
        full_name(digits, Scale::LongBritish),
        Ok(String::from("nineteen thousand million forty two"))
    );
    let digits = "1000000000000";
    assert_eq!(full_name(digits, Scale::Short), Ok(String::from("one trillion")));
    assert_eq!(full_name(digits, Scale::LongPeletier), Ok(String::from("one billion")));
    assert_eq!(full_name(digits, Scale::LongBritish), Ok(String::from("one billion")));
    let digits = "2000003000004000005000006";
    assert_eq!(
        full_name(digits, Scale::Short),
        Ok(String::from(
            "two septillion three quintillion four trillion five million six"
        ))
    );
    assert_eq!(
        full_name(digits, Scale::LongPeletier),
        Ok(String::from("two quadrillion three trillion four billion five million six"))
    );
    assert_eq!(
        full_name(digits, Scale::LongBritish),
        Ok(String::from("two quadrillion three trillion four billion five million six"))
    );
}

#[test]
fn small_powers_of_ten() {
    assert_eq!(power_of_ten("0", Scale::Short), Ok(String::from("one")));
    assert_eq!(power_of_ten("1", Scale::Short), Ok(String::from("ten")));
    assert_eq!(power_of_ten("2", Scale::Short), Ok(String::from("one hundred")));
    assert_eq!(power_of_ten("3", Scale::Short), Ok(String::from("one thousand")));
    assert_eq!(power_of_ten("4", Scale::LongBritish), Ok(String::from("ten thousand")));
    assert_eq!(power_of_ten("5", Scale::LongPeletier), Ok(String::from("one hundred thousand")));
    assert_eq!(power_of_ten("6", Scale::Short), Ok(String::from("one million")));
    assert_eq!(power_of_ten("9", Scale::Short), Ok(String::from("one billion")));
    assert_eq!(power_of_ten("9", Scale::LongBritish), Ok(String::from("one thousand million")));
    assert_eq!(power_of_ten("9", Scale::LongPeletier), Ok(String::from("one milliard")));
    assert_eq!(power_of_ten("12", Scale::LongPeletier), Ok(String::from("one billion")));
    assert_eq!(power_of_ten("0009", Scale::Short), Ok(String::from("one billion")));
}

#[test]
fn powers_of_ten_agree_with_full_names() {
    for scale in SCALES {
        for n in 0..100usize {
            let number = format!("1{}", "0".repeat(n));
            let exponent = format!("{}", n);
            assert_eq!(power_of_ten(&exponent, scale), full_name(&number, scale));
        }
    }
}

#[test]
fn powers_of_ten_agree_with_full_names_far_out() {
    for scale in SCALES {
        for n in [2999usize, 3000, 3001, 3002, 3003, 3004, 3005, 3006, 6003, 6006, 10000] {
            let number = format!("1{}", "0".repeat(n));
            let exponent = format!("{}", n);
            assert_eq!(power_of_ten(&exponent, scale), full_name(&number, scale));
        }
    }
}

#[test]
fn chained_illions() {
    assert_eq!(
        power_of_ten("3000", Scale::Short),
        Ok(String::from("one novenonagintanongentillion"))
    );
    assert_eq!(power_of_ten("3003", Scale::Short), Ok(String::from("one millinillion")));
    assert_eq!(power_of_ten("3006", Scale::Short), Ok(String::from("one millimillion")));
    assert_eq!(power_of_ten("6000", Scale::LongPeletier), Ok(String::from("one millinillion")));
    assert_eq!(power_of_ten("6003", Scale::LongPeletier), Ok(String::from("one millinilliard")));
    assert_eq!(
        power_of_ten("6003", Scale::LongBritish),
        Ok(String::from("one thousand millinillion"))
    );
    assert_eq!(
        power_of_ten("3000003", Scale::Short),
        Ok(String::from("one millinillinillion"))
    );
    assert_eq!(
        power_of_ten("3003004", Scale::Short),
        Ok(String::from("ten millimillinillion"))
    );
}

#[test]
fn exponents_beyond_machine_words() {
    // The exponent is 3 * (10^30 + 1) + 2, far more than 64 bits hold.
    assert_eq!(
        power_of_ten("3000000000000000000000000000005", Scale::Short),
        Ok(String::from(
            "one hundred millinillinillinillinillinillinillinillinillinillinillion"
        ))
    );
    // (exponent / 3) is odd, so on the long scales it lies between two -illions.
    assert_eq!(
        power_of_ten("6000000000000000000000000000009", Scale::LongPeletier),
        Ok(String::from(
            "one millinillinillinillinillinillinillinillinillinillimilliard"
        ))
    );
    assert_eq!(
        power_of_ten("6000000000000000000000000000009", Scale::LongBritish),
        Ok(String::from(
            "one thousand millinillinillinillinillinillinillinillinillinillimillion"
        ))
    );
}
