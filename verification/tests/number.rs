use portobello::number::{decimal_text, parse_i32, parse_i64, parse_u32};

#[test]
fn digits_are_read_as_a_decimal_number() {
    assert_eq!(parse_i32("0"), Some(0));
    assert_eq!(parse_i32("7"), Some(7));
    assert_eq!(parse_i32("42"), Some(42));
    assert_eq!(parse_i32("1234567890"), Some(1234567890));
    assert_eq!(parse_i32("007"), Some(7));
    assert_eq!(parse_i32("0000000000000000000012"), Some(12));
}

#[test]
fn a_sign_may_come_first() {
    assert_eq!(parse_i32("+5"), Some(5));
    assert_eq!(parse_i32("-5"), Some(-5));
    assert_eq!(parse_i32("-0"), Some(0));
    assert_eq!(parse_i32("+0"), Some(0));
}

#[test]
fn the_range_of_an_i32_is_the_limit() {
    assert_eq!(parse_i32("2147483647"), Some(i32::MAX));
    assert_eq!(parse_i32("+2147483647"), Some(i32::MAX));
    assert_eq!(parse_i32("-2147483648"), Some(i32::MIN));
    assert_eq!(parse_i32("2147483648"), None);
    assert_eq!(parse_i32("-2147483649"), None);
    assert_eq!(parse_i32("21474836470"), None);
    assert_eq!(parse_i32("99999999999999999999999999999999"), None);
    assert_eq!(parse_i32("-99999999999999999999999999999999"), None);
}

#[test]
fn anything_else_is_no_number() {
    assert_eq!(parse_i32(""), None);
    assert_eq!(parse_i32("+"), None);
    assert_eq!(parse_i32("-"), None);
    assert_eq!(parse_i32("--1"), None);
    assert_eq!(parse_i32("+-1"), None);
    assert_eq!(parse_i32("1-"), None);
    assert_eq!(parse_i32(" 1"), None);
    assert_eq!(parse_i32("1 "), None);
    assert_eq!(parse_i32("1_000"), None);
    assert_eq!(parse_i32("1.0"), None);
    assert_eq!(parse_i32("0x10"), None);
    assert_eq!(parse_i32("12a"), None);
    assert_eq!(parse_i32("99999999999999999999x"), None);
    assert_eq!(parse_i32("\u{0661}"), None);
    assert_eq!(parse_i32("true"), None);
}

#[test]
fn parse_agrees_with_the_standard_library() {
    for text in [
        "0", "-0", "+0", "1", "-1", "+1", "10", "2147483647", "2147483648", "-2147483648",
        "-2147483649", "", "+", "-", "a", "1a", " 1", "١", "00", "-00", "+-1", "4294967296",
    ] {
        assert_eq!(parse_i32(text), text.parse::<i32>().ok(), "{:?}", text);
    }
}

#[test]
fn i64_has_a_wider_range() {
    assert_eq!(parse_i64("0"), Some(0));
    assert_eq!(parse_i64("-1"), Some(-1));
    assert_eq!(parse_i64("+2147483648"), Some(2147483648));
    assert_eq!(parse_i64("9223372036854775807"), Some(i64::MAX));
    assert_eq!(parse_i64("-9223372036854775808"), Some(i64::MIN));
    assert_eq!(parse_i64("9223372036854775808"), None);
    assert_eq!(parse_i64("-9223372036854775809"), None);
    assert_eq!(parse_i64("18446744073709551616"), None);
    assert_eq!(parse_i64("184467440737095516160"), None);
    assert_eq!(parse_i64(""), None);
    assert_eq!(parse_i64("-"), None);
    assert_eq!(parse_i64("1e3"), None);
}

#[test]
fn u32_takes_no_minus() {
    assert_eq!(parse_u32("0"), Some(0));
    assert_eq!(parse_u32("+0"), Some(0));
    assert_eq!(parse_u32("5432"), Some(5432));
    assert_eq!(parse_u32("+5432"), Some(5432));
    assert_eq!(parse_u32("4294967295"), Some(u32::MAX));
    assert_eq!(parse_u32("4294967296"), None);
    assert_eq!(parse_u32("-0"), None);
    assert_eq!(parse_u32("-1"), None);
    assert_eq!(parse_u32(""), None);
    assert_eq!(parse_u32("+"), None);
    assert_eq!(parse_u32("54 32"), None);
}

#[test]
fn wider_parsers_agree_with_the_standard_library() {
    for text in [
        "0", "-0", "+0", "1", "-1", "+1", "4294967295", "4294967296", "9223372036854775807",
        "9223372036854775808", "-9223372036854775808", "-9223372036854775809", "", "+", "-",
        "a", "1a", " 1", "00", "+-1", "18446744073709551615", "18446744073709551616",
    ] {
        assert_eq!(parse_i64(text), text.parse::<i64>().ok(), "{:?}", text);
        assert_eq!(parse_u32(text), text.parse::<u32>().ok(), "{:?}", text);
    }
}

#[test]
fn numbers_are_written_in_decimal() {
    assert_eq!(decimal_text(0), "0");
    assert_eq!(decimal_text(7), "7");
    assert_eq!(decimal_text(10), "10");
    assert_eq!(decimal_text(5432), "5432");
    assert_eq!(decimal_text(1000000), "1000000");
    assert_eq!(decimal_text(1234567890), "1234567890");
    assert_eq!(decimal_text(u32::MAX), "4294967295");
}

#[test]
fn what_is_written_is_read_back() {
    for number in [0, 1, 9, 10, 99, 100, 5432, 65535, 65536, 4294967294, u32::MAX] {
        assert_eq!(parse_u32(&decimal_text(number)), Some(number));
        assert_eq!(decimal_text(number), number.to_string());
    }
}
