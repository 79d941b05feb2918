use http_server::text::{decimal_string, parse_decimal, str_contains, str_eq_ignore_ascii_case};

#[test]
fn decimal_spelling() {
    assert_eq!(decimal_string(0), "0");
    assert_eq!(decimal_string(7), "7");
    assert_eq!(decimal_string(404), "404");
    assert_eq!(decimal_string(usize::MAX), usize::MAX.to_string());
}

#[test]
fn decimal_reading() {
    assert_eq!(parse_decimal("0"), Some(0));
    assert_eq!(parse_decimal("123"), Some(123));
    assert_eq!(parse_decimal("+42"), Some(42));
    assert_eq!(parse_decimal(""), None);
    assert_eq!(parse_decimal("+"), None);
    assert_eq!(parse_decimal("-1"), None);
    assert_eq!(parse_decimal("12a"), None);
    assert_eq!(parse_decimal(" 1"), None);
    assert_eq!(parse_decimal(&usize::MAX.to_string()), Some(usize::MAX));
    assert_eq!(parse_decimal("99999999999999999999999"), None);
}

#[test]
fn ascii_case_insensitive_equality() {
    assert!(str_eq_ignore_ascii_case("close", "close"));
    assert!(str_eq_ignore_ascii_case("CLOSE", "close"));
    assert!(str_eq_ignore_ascii_case("Close", "close"));
    assert!(!str_eq_ignore_ascii_case("closed", "close"));
    assert!(!str_eq_ignore_ascii_case("keep-alive", "close"));
}

#[test]
fn substring_search() {
    assert!(str_contains("deflate, gzip", "gzip"));
    assert!(!str_contains("deflate", "gzip"));
    assert!(str_contains("abc", ""));
}
