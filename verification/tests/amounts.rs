use transaction_processing::amount::MAX_UNITS;
use transaction_processing::decimal::MAX_MANTISSA;
use transaction_processing::text::is_numeral_text;
use transaction_processing::{
    amount_from_decimal, display_text, parse_amount, parse_kind, Amount, EventKind, ParseError,
};

fn parts(result: Result<Amount, ParseError>) -> Result<(i128, u32), ParseError> {
    result.map(|amount| (amount.units(), amount.places()))
}

#[test]
fn parse_fails_on_the_four_named_texts() {
    assert_eq!(parts(parse_amount("0")), Err(ParseError::NonPositive));
    assert_eq!(parts(parse_amount("-1")), Err(ParseError::NonPositive));
    assert_eq!(parts(parse_amount("")), Err(ParseError::Empty));
    assert_eq!(parts(parse_amount("1.23456")), Err(ParseError::TooPrecise));
}

#[test]
fn parse_reads_four_places_exactly() {
    let amount = parse_amount("1.2345").unwrap();
    assert_eq!(amount.units(), 12345);
    assert_eq!(amount.places(), 4);
    assert_eq!(amount.mantissa(), 12345);
    assert_eq!(amount.to_text().unwrap(), "1.2345");
}

#[test]
fn parse_pads_to_ten_thousandths_and_keeps_the_digits_written() {
    assert_eq!(parts(parse_amount("1.5")), Ok((15000, 1)));
    assert_eq!(parts(parse_amount("2.0")), Ok((20000, 1)));
    assert_eq!(parts(parse_amount("10")), Ok((100000, 0)));
    assert_eq!(parts(parse_amount("0.0001")), Ok((1, 4)));
    assert_eq!(parts(parse_amount("007")), Ok((70000, 0)));
    assert_eq!(parts(parse_amount("+3.25")), Ok((32500, 2)));
    assert_eq!(parts(parse_amount("1.50")), Ok((15000, 2)));
}

#[test]
fn parse_trims_surrounding_white_space() {
    assert_eq!(parts(parse_amount("  1.5 ")), Ok((15000, 1)));
    assert_eq!(parts(parse_amount("\t42\n")), Ok((420000, 0)));
    assert_eq!(parts(parse_amount("   ")), Err(ParseError::Empty));
    assert_eq!(parts(parse_amount(" \t\r\n")), Err(ParseError::Empty));
    assert_eq!(parts(parse_amount("1 5")), Err(ParseError::Malformed));
}

#[test]
fn parse_rejects_what_is_no_numeral() {
    for text in [
        "abc", "1.2.3", "1_000", ".5", "5.", "1e3", "+", "-", ".", "1,5", "--1", "+-1", "1-", "0x10",
        "١٢", "1.5€",
    ] {
        assert_eq!(parts(parse_amount(text)), Err(ParseError::Malformed), "{}", text);
    }
}

#[test]
fn parse_rejects_zero_and_negative_values() {
    for text in ["0", "0.0", "0.0000", "-0", "+0", "-1", "-0.5", "-0.00001", "0.00000"] {
        assert_eq!(parts(parse_amount(text)), Err(ParseError::NonPositive), "{}", text);
    }
}

#[test]
fn parse_rejects_more_than_four_fractional_digits() {
    for text in ["1.23456", "0.00001", "1.00000", "12.123456789"] {
        assert_eq!(parts(parse_amount(text)), Err(ParseError::TooPrecise), "{}", text);
    }
}

#[test]
fn parse_takes_the_largest_decimal_and_no_larger_one() {
    let largest = parse_amount("79228162514264337593543950335").unwrap();
    assert_eq!(largest.units(), MAX_MANTISSA * 10000);
    assert_eq!(largest.places(), 0);
    assert_eq!(largest.to_text().unwrap(), "79228162514264337593543950335");
    assert_eq!(
        parts(parse_amount("79228162514264337593543950336")),
        Err(ParseError::Malformed)
    );
}

#[test]
fn each_error_has_its_message() {
    assert_eq!(ParseError::Empty.message(), "empty amount");
    assert_eq!(ParseError::Malformed.message(), "bad amount");
    assert_eq!(ParseError::NonPositive.message(), "amount must be positive");
    assert_eq!(ParseError::TooPrecise.message(), "too many decimal places");
}

#[test]
fn a_decimal_becomes_an_amount_of_the_same_value() {
    assert_eq!(parts(amount_from_decimal(15, 1)), Ok((15000, 1)));
    assert_eq!(parts(amount_from_decimal(1, 4)), Ok((1, 4)));
    assert_eq!(parts(amount_from_decimal(1, 0)), Ok((10000, 0)));
    assert_eq!(parts(amount_from_decimal(123, 2)), Ok((12300, 2)));
    assert_eq!(parts(amount_from_decimal(999, 3)), Ok((9990, 3)));
    assert_eq!(parts(amount_from_decimal(0, 0)), Err(ParseError::NonPositive));
    assert_eq!(parts(amount_from_decimal(-5, 9)), Err(ParseError::NonPositive));
    assert_eq!(parts(amount_from_decimal(5, 5)), Err(ParseError::TooPrecise));
    assert_eq!(
        parts(amount_from_decimal(MAX_MANTISSA, 0)),
        Ok((MAX_MANTISSA * 10000, 0))
    );
}

#[test]
fn amounts_are_made_from_parts_within_range_only() {
    assert_eq!(Amount::from_parts(15, 1).map(|a| a.units()), Some(15000));
    assert_eq!(Amount::from_parts(-15, 1).map(|a| a.units()), Some(-15000));
    assert_eq!(Amount::from_parts(0, 3).map(|a| a.places()), Some(3));
    assert!(Amount::from_parts(1, 5).is_none());
    assert!(Amount::from_parts(MAX_UNITS, 4).is_some());
    assert!(Amount::from_parts(MAX_UNITS + 1, 4).is_none());
    assert!(Amount::from_parts(-MAX_UNITS, 4).is_some());
    assert!(Amount::from_parts(-MAX_UNITS - 1, 4).is_none());
    assert!(Amount::from_parts(MAX_UNITS / 10000, 0).is_some());
    assert!(Amount::from_parts(MAX_UNITS / 10000 + 1, 0).is_none());
    assert!(Amount::from_parts(i128::MAX, 0).is_none());
    assert!(Amount::from_parts(i128::MIN, 0).is_none());
}

#[test]
fn zero_is_zero_without_digits() {
    let zero = Amount::zero();
    assert_eq!(zero.units(), 0);
    assert_eq!(zero.places(), 0);
    assert_eq!(zero.to_text().unwrap(), "0");
}

#[test]
fn sums_and_differences_are_exact() {
    let a = parse_amount("1.5").unwrap();
    let b = parse_amount("2.25").unwrap();
    let sum = a.checked_plus(&b).unwrap();
    assert_eq!((sum.units(), sum.places()), (37500, 2));
    assert_eq!(sum.to_text().unwrap(), "3.75");
    let difference = a.checked_minus(&b).unwrap();
    assert_eq!((difference.units(), difference.places()), (-7500, 2));
    assert_eq!(difference.to_text().unwrap(), "-0.75");
    let nothing = a.checked_minus(&a).unwrap();
    assert_eq!((nothing.units(), nothing.places()), (0, 1));
    assert_eq!(nothing.to_text().unwrap(), "0.0");
    assert!(a.less_than(&b));
    assert!(!b.less_than(&a));
    assert!(!a.less_than(&a));
}

#[test]
fn sums_out_of_range_are_refused() {
    let most = Amount::from_parts(MAX_UNITS, 4).unwrap();
    let one = Amount::from_parts(1, 4).unwrap();
    assert!(most.checked_plus(&one).is_none());
    assert!(most.checked_minus(&one).is_some());
    let least = Amount::from_parts(-MAX_UNITS, 4).unwrap();
    assert!(least.checked_minus(&one).is_none());
    assert!(least.checked_plus(&one).is_some());
    assert_eq!(least.checked_plus(&most).map(|a| a.units()), Some(0));
}

#[test]
fn the_mantissa_counts_the_last_digit_shown() {
    assert_eq!(Amount::from_parts(-3, 0).unwrap().mantissa(), -3);
    assert_eq!(Amount::from_parts(-15, 1).unwrap().mantissa(), -15);
    assert_eq!(Amount::from_parts(12345, 4).unwrap().mantissa(), 12345);
    assert_eq!(parse_amount("100").unwrap().mantissa(), 100);
}

#[test]
fn text_shows_the_digits_an_amount_carries() {
    assert_eq!(Amount::from_parts(-3, 0).unwrap().to_text().unwrap(), "-3");
    assert_eq!(Amount::from_parts(20, 1).unwrap().to_text().unwrap(), "2.0");
    assert_eq!(Amount::from_parts(5, 4).unwrap().to_text().unwrap(), "0.0005");
    assert_eq!(Amount::from_parts(-5, 2).unwrap().to_text().unwrap(), "-0.05");
    assert_eq!(Amount::from_parts(0, 2).unwrap().to_text().unwrap(), "0.00");
}

#[test]
fn an_amount_beyond_ninety_six_bits_has_no_text() {
    let within = Amount::from_parts(MAX_MANTISSA, 0).unwrap();
    assert!(within.to_text().is_some());
    let beyond = Amount::from_parts(MAX_MANTISSA + 1, 0).unwrap();
    assert!(beyond.to_text().is_none());
    let negative = Amount::from_parts(-MAX_MANTISSA - 1, 4).unwrap();
    assert!(negative.to_text().is_none());
    assert!(Amount::from_parts(-MAX_MANTISSA, 4).unwrap().to_text().is_some());
}

#[test]
fn display_rounds_to_four_places_half_to_even() {
    assert_eq!(display_text(12225, 5).unwrap(), "0.1222");
    assert_eq!(display_text(12235, 5).unwrap(), "0.1224");
    assert_eq!(display_text(12226, 5).unwrap(), "0.1223");
    assert_eq!(display_text(-12222222, 7).unwrap(), "-1.2222");
    assert_eq!(display_text(15, 4).unwrap(), "0.0015");
    assert_eq!(display_text(0, 6).unwrap(), "0.0000");
}

#[test]
fn display_refuses_what_is_no_decimal() {
    assert!(display_text(1, 28).is_some());
    assert!(display_text(1, 29).is_none());
    assert!(display_text(MAX_MANTISSA, 0).is_some());
    assert!(display_text(MAX_MANTISSA + 1, 0).is_none());
    assert!(display_text(-MAX_MANTISSA, 0).is_some());
    assert!(display_text(-MAX_MANTISSA - 1, 0).is_none());
}

#[test]
fn numerals_have_an_optional_sign_digits_and_an_optional_fraction() {
    for text in ["0", "12", "+12", "-12", "1.5", "-0.25", "+10.0001", "000.000"] {
        assert!(is_numeral_text(text), "{}", text);
    }
    for text in ["", "+", "-", ".", ".5", "5.", "1..5", "1.5.", "1.-5", "1 ", " 1", "1a", "a1", "१"] {
        assert!(!is_numeral_text(text), "{}", text);
    }
}

#[test]
fn kinds_are_named_in_any_letter_case() {
    assert_eq!(parse_kind("deposit"), Some(EventKind::Deposit));
    assert_eq!(parse_kind("withdrawal"), Some(EventKind::Withdrawal));
    assert_eq!(parse_kind("dispute"), Some(EventKind::Dispute));
    assert_eq!(parse_kind("resolve"), Some(EventKind::Resolve));
    assert_eq!(parse_kind("chargeback"), Some(EventKind::Chargeback));
    assert_eq!(parse_kind("DEPOSIT"), Some(EventKind::Deposit));
    assert_eq!(parse_kind("  Withdrawal\t"), Some(EventKind::Withdrawal));
    assert_eq!(parse_kind("ChargeBack"), Some(EventKind::Chargeback));
    assert_eq!(parse_kind("refund"), None);
    assert_eq!(parse_kind(""), None);
    assert_eq!(parse_kind("deposits"), None);
    assert_eq!(parse_kind("de posit"), None);
}
