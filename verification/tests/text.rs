use student_tracker::text::{
    decimal_of, excerpt_of, pad, parse_amount, strip_marks, strip_prefix, trim,
};

#[test]
fn trims_both_ends() {
    assert_eq!(trim(" \t a b\r\n"), "a b");
    assert_eq!(trim("\u{a0}x\u{3000}"), "x");
    assert_eq!(trim("   "), "");
    assert_eq!(trim("all"), "all");
}

#[test]
fn strips_a_prefix_once() {
    assert_eq!(strip_prefix("0x0x12", "0x"), Some("0x12".to_string()));
    assert_eq!(strip_prefix("student/", "student/"), Some(String::new()));
    assert_eq!(strip_prefix("stud", "student/"), None);
    assert_eq!(strip_prefix("0X12", "0x"), None);
}

#[test]
fn strips_all_marks() {
    assert_eq!(strip_marks("0x0x12"), "12");
    assert_eq!(strip_marks("12"), "12");
    assert_eq!(strip_marks("0x"), "");
}

#[test]
fn pads_with_zeros() {
    assert_eq!(pad("2a", 5), "0002a");
    assert_eq!(pad("12345", 5), "12345");
    assert_eq!(pad("123456", 5), "123456");
    assert_eq!(pad("é", 2), "0é");
}

#[test]
fn writes_decimal_digits() {
    assert_eq!(decimal_of(0), "0");
    assert_eq!(decimal_of(1_000_250), "1000250");
    assert_eq!(decimal_of(u128::MAX), "340282366920938463463374607431768211455");
}

#[test]
fn reads_amounts() {
    assert_eq!(parse_amount("0"), Some(0));
    assert_eq!(parse_amount("+7"), Some(7));
    assert_eq!(parse_amount("007"), Some(7));
    assert_eq!(parse_amount("340282366920938463463374607431768211455"), Some(u128::MAX));
}

#[test]
fn refuses_what_is_no_amount() {
    assert_eq!(parse_amount(""), None);
    assert_eq!(parse_amount("+"), None);
    assert_eq!(parse_amount("-1"), None);
    assert_eq!(parse_amount("1.5"), None);
    assert_eq!(parse_amount(" 1"), None);
    assert_eq!(parse_amount("++1"), None);
    assert_eq!(parse_amount("0x10"), None);
    assert_eq!(parse_amount("340282366920938463463374607431768211456"), None);
}

#[test]
fn amount_is_read_again() {
    assert_eq!(parse_amount(&decimal_of(12_345)), Some(12_345));
}

#[test]
fn takes_an_excerpt_with_marked_quotes() {
    assert_eq!(excerpt_of("a\"b"), "a\\\"b");
    assert_eq!(excerpt_of(&"x".repeat(200)), "x".repeat(120));
    assert_eq!(excerpt_of(&"\"".repeat(121)), "\\\"".repeat(120));
}
