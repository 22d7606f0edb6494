use http_rust::text::{parse_i32, parse_u64, same_text};

#[test]
fn parses_plain_u64() {
    assert_eq!(parse_u64("42"), Some(42));
    assert_eq!(parse_u64("+7"), Some(7));
    assert_eq!(parse_u64("0000"), Some(0));
    assert_eq!(parse_u64("18446744073709551615"), Some(u64::MAX));
}

#[test]
fn rejects_bad_u64() {
    assert_eq!(parse_u64(""), None);
    assert_eq!(parse_u64("+"), None);
    assert_eq!(parse_u64("-1"), None);
    assert_eq!(parse_u64("-0"), None);
    assert_eq!(parse_u64("12a"), None);
    assert_eq!(parse_u64(" 1"), None);
    assert_eq!(parse_u64("18446744073709551616"), None);
    assert_eq!(parse_u64("١"), None);
}

#[test]
fn parse_u64_agrees_with_std() {
    for s in ["0", "1", "+1", "-1", "", "99999999999999999999", "007", "1_0", "abc", "+-1"] {
        assert_eq!(parse_u64(s), s.parse::<u64>().ok(), "input {:?}", s);
    }
}

#[test]
fn parses_i32_with_sign() {
    assert_eq!(parse_i32("5"), Some(5));
    assert_eq!(parse_i32("-5"), Some(-5));
    assert_eq!(parse_i32("+5"), Some(5));
    assert_eq!(parse_i32("2147483647"), Some(i32::MAX));
    assert_eq!(parse_i32("-2147483648"), Some(i32::MIN));
}

#[test]
fn rejects_bad_i32() {
    assert_eq!(parse_i32("2147483648"), None);
    assert_eq!(parse_i32("-2147483649"), None);
    assert_eq!(parse_i32("-"), None);
    assert_eq!(parse_i32("--1"), None);
    assert_eq!(parse_i32("1.0"), None);
}

#[test]
fn parse_i32_agrees_with_std() {
    for s in ["0", "-0", "+0", "-", "+", "12", "-12", "2147483647", "2147483648", "-2147483648",
        "-2147483649", "x", "1 ", "00000000000000000001"] {
        assert_eq!(parse_i32(s), s.parse::<i32>().ok(), "input {:?}", s);
    }
}

#[test]
fn compares_text() {
    assert!(same_text("completed", "completed"));
    assert!(!same_text("completed", "complete"));
    assert!(!same_text("", "a"));
    assert!(same_text("", ""));
}
