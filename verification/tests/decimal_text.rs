use request_counter::decimal::{i32_text, parse_i32, push_i32, NumberError};
use std::num::IntErrorKind;

fn expected_of_std(text: &str) -> Result<i32, NumberError> {
    match text.parse::<i32>() {
        Ok(v) => Ok(v),
        Err(e) => Err(match e.kind() {
            IntErrorKind::Empty => NumberError::Empty,
            IntErrorKind::InvalidDigit => NumberError::InvalidDigit,
            IntErrorKind::PosOverflow => NumberError::PosOverflow,
            IntErrorKind::NegOverflow => NumberError::NegOverflow,
            other => panic!("unexpected kind {:?}", other),
        }),
    }
}

#[test]
fn reads_plain_numbers() {
    assert_eq!(parse_i32("0"), Ok(0));
    assert_eq!(parse_i32("5"), Ok(5));
    assert_eq!(parse_i32("42"), Ok(42));
    assert_eq!(parse_i32("1234567890"), Ok(1234567890));
}

#[test]
fn reads_signs() {
    assert_eq!(parse_i32("+5"), Ok(5));
    assert_eq!(parse_i32("-5"), Ok(-5));
    assert_eq!(parse_i32("-0"), Ok(0));
    assert_eq!(parse_i32("+0"), Ok(0));
}

#[test]
fn reads_leading_zeros() {
    assert_eq!(parse_i32("007"), Ok(7));
    assert_eq!(parse_i32("-007"), Ok(-7));
    assert_eq!(parse_i32("00000000000000000000012"), Ok(12));
    assert_eq!(parse_i32("0000000000000000000000"), Ok(0));
}

#[test]
fn reads_the_ends_of_the_range() {
    assert_eq!(parse_i32("2147483647"), Ok(i32::MAX));
    assert_eq!(parse_i32("+2147483647"), Ok(i32::MAX));
    assert_eq!(parse_i32("-2147483648"), Ok(i32::MIN));
    assert_eq!(parse_i32("-2147483647"), Ok(-2147483647));
}

#[test]
fn empty_text_is_empty() {
    assert_eq!(parse_i32(""), Err(NumberError::Empty));
}

#[test]
fn a_lone_sign_is_an_invalid_digit() {
    assert_eq!(parse_i32("+"), Err(NumberError::InvalidDigit));
    assert_eq!(parse_i32("-"), Err(NumberError::InvalidDigit));
}

#[test]
fn text_that_is_no_number_is_an_invalid_digit() {
    assert_eq!(parse_i32("abc"), Err(NumberError::InvalidDigit));
    assert_eq!(parse_i32("xyz"), Err(NumberError::InvalidDigit));
    assert_eq!(parse_i32("12.5"), Err(NumberError::InvalidDigit));
    assert_eq!(parse_i32("12a"), Err(NumberError::InvalidDigit));
    assert_eq!(parse_i32(" 1"), Err(NumberError::InvalidDigit));
    assert_eq!(parse_i32("1 "), Err(NumberError::InvalidDigit));
    assert_eq!(parse_i32("1_000"), Err(NumberError::InvalidDigit));
    assert_eq!(parse_i32("+-1"), Err(NumberError::InvalidDigit));
    assert_eq!(parse_i32("--1"), Err(NumberError::InvalidDigit));
    assert_eq!(parse_i32("0x10"), Err(NumberError::InvalidDigit));
    assert_eq!(parse_i32("\u{0663}"), Err(NumberError::InvalidDigit));
    assert_eq!(parse_i32("1\u{00e9}"), Err(NumberError::InvalidDigit));
}

#[test]
fn a_value_above_the_range_is_too_large() {
    assert_eq!(parse_i32("2147483648"), Err(NumberError::PosOverflow));
    assert_eq!(parse_i32("+2147483648"), Err(NumberError::PosOverflow));
    assert_eq!(parse_i32("9999999999"), Err(NumberError::PosOverflow));
    assert_eq!(parse_i32("100000000000000000000000000"), Err(NumberError::PosOverflow));
}

#[test]
fn a_value_below_the_range_is_too_small() {
    assert_eq!(parse_i32("-2147483649"), Err(NumberError::NegOverflow));
    assert_eq!(parse_i32("-9999999999"), Err(NumberError::NegOverflow));
}

#[test]
fn what_comes_first_from_the_left_decides() {
    // The digits leave the range before the letter is reached.
    assert_eq!(parse_i32("99999999999x"), Err(NumberError::PosOverflow));
    assert_eq!(parse_i32("-99999999999x"), Err(NumberError::NegOverflow));
    // The letter is reached while the digits are still in the range.
    assert_eq!(parse_i32("999999999x"), Err(NumberError::InvalidDigit));
    assert_eq!(parse_i32("2147483647x"), Err(NumberError::InvalidDigit));
    assert_eq!(parse_i32("x99999999999"), Err(NumberError::InvalidDigit));
}

#[test]
fn reads_as_the_standard_library_reads() {
    let texts: [&str; 40] = [
        "", "+", "-", "0", "-0", "+0", "00", "007", "-007", "5", "+5", "-5", "42", "abc", "xyz",
        "12.5", "12a", "a12", " 1", "1 ", "1_000", "+-1", "--1", "-+1", "0x10", "1e3",
        "2147483647", "2147483648", "-2147483648", "-2147483649", "+2147483647", "99999999999x",
        "999999999x", "-99999999999x", "4294967296", "00000000002147483647",
        "00000000002147483648", "\u{0663}", "1\u{00e9}", "\u{ff11}",
    ];
    for text in texts {
        assert_eq!(parse_i32(text), expected_of_std(text), "text {:?}", text);
    }
}

#[test]
fn messages_are_those_of_the_standard_library() {
    let texts: [&str; 4] = ["", "abc", "2147483648", "-2147483649"];
    for text in texts {
        let ours = parse_i32(text).unwrap_err();
        let theirs = text.parse::<i32>().unwrap_err();
        assert_eq!(ours.message(), theirs.to_string());
    }
}

#[test]
fn each_error_has_its_sentence() {
    assert_eq!(NumberError::Empty.message(), "cannot parse integer from empty string");
    assert_eq!(NumberError::InvalidDigit.message(), "invalid digit found in string");
    assert_eq!(NumberError::PosOverflow.message(), "number too large to fit in target type");
    assert_eq!(NumberError::NegOverflow.message(), "number too small to fit in target type");
}

#[test]
fn writes_numbers() {
    assert_eq!(i32_text(0), "0");
    assert_eq!(i32_text(7), "7");
    assert_eq!(i32_text(10), "10");
    assert_eq!(i32_text(-1), "-1");
    assert_eq!(i32_text(-42), "-42");
    assert_eq!(i32_text(1000), "1000");
    assert_eq!(i32_text(i32::MAX), "2147483647");
    assert_eq!(i32_text(i32::MIN), "-2147483648");
}

#[test]
fn writes_after_what_is_there() {
    let mut out = String::from("n = ");
    push_i32(&mut out, -305);
    assert_eq!(out, "n = -305");
    push_i32(&mut out, 0);
    assert_eq!(out, "n = -3050");
}

#[test]
fn writes_as_the_standard_library_writes() {
    let mut v: i64 = i32::MIN as i64;
    while v <= i32::MAX as i64 {
        let n: i32 = v as i32;
        assert_eq!(i32_text(n), format!("{}", n));
        v += 7_654_321;
    }
    let mut small: i32 = -1100;
    while small <= 1100 {
        assert_eq!(i32_text(small), format!("{}", small));
        small += 1;
    }
}

#[test]
fn what_is_written_reads_back() {
    let values: [i32; 11] =
        [0, 1, -1, 9, 10, -10, 99, 1_000_000, -999_999_999, i32::MAX, i32::MIN];
    for v in values {
        assert_eq!(parse_i32(&i32_text(v)), Ok(v));
    }
    let mut v: i64 = i32::MIN as i64;
    while v <= i32::MAX as i64 {
        let n: i32 = v as i32;
        assert_eq!(parse_i32(&i32_text(n)), Ok(n));
        v += 9_876_543;
    }
}
