use rusql_alchemy::strutil::{format_i64, format_u64, is_float_text, join_strings, parse_i64, str_eq};

#[test]
fn decimal_rendering() {
    assert_eq!(format_u64(0), "0");
    assert_eq!(format_u64(7), "7");
    assert_eq!(format_u64(10), "10");
    assert_eq!(format_u64(90210), "90210");
    assert_eq!(format_u64(u64::MAX), "18446744073709551615");
    assert_eq!(format_i64(0), "0");
    assert_eq!(format_i64(-1), "-1");
    assert_eq!(format_i64(i64::MIN), "-9223372036854775808");
    assert_eq!(format_i64(i64::MAX), "9223372036854775807");
}

#[test]
fn decimal_parsing() {
    assert_eq!(parse_i64("0"), Some(0));
    assert_eq!(parse_i64("42"), Some(42));
    assert_eq!(parse_i64("-42"), Some(-42));
    assert_eq!(parse_i64("+42"), Some(42));
    assert_eq!(parse_i64("9223372036854775807"), Some(i64::MAX));
    assert_eq!(parse_i64("-9223372036854775808"), Some(i64::MIN));
    assert_eq!(parse_i64("9223372036854775808"), None);
    assert_eq!(parse_i64(""), None);
    assert_eq!(parse_i64("-"), None);
    assert_eq!(parse_i64("4 2"), None);
    assert_eq!(parse_i64("00012"), Some(12));
}

#[test]
fn parse_inverts_format() {
    for v in [0i64, 1, -1, 99, -100, 1_000_000, i64::MIN, i64::MAX] {
        assert_eq!(parse_i64(&format_i64(v)), Some(v));
    }
}

#[test]
fn float_text_recognition() {
    for ok in ["1", "1.5", "-1.5", "+.5", "5.", "1e10", "1.5e-3", "2E+8"] {
        assert!(is_float_text(ok), "{ok}");
    }
    for bad in ["", ".", "e3", "1e", "1.5e-", "one", "1 .5"] {
        assert!(!is_float_text(bad), "{bad}");
    }
}

#[test]
fn joining_strings() {
    let parts: Vec<String> = vec![];
    assert_eq!(join_strings(&parts, ", "), "");
    let parts = vec!["a".to_string()];
    assert_eq!(join_strings(&parts, ", "), "a");
    let parts = vec!["a".to_string(), "b".to_string(), "c".to_string()];
    assert_eq!(join_strings(&parts, ", "), "a, b, c");
    assert_eq!(join_strings(&parts, " "), "a b c");
}

#[test]
fn string_equality() {
    assert!(str_eq("null", "null"));
    assert!(!str_eq("null", "nul"));
    assert!(!str_eq("", "x"));
    assert!(str_eq("", ""));
}
