use geomk::text::{chars_of, format_i64, parse_i64};

#[test]
fn parse_i64_accepts_signed_decimals() {
    assert_eq!(parse_i64("42"), Some(42));
    assert_eq!(parse_i64("-42"), Some(-42));
    assert_eq!(parse_i64("+7"), Some(7));
    assert_eq!(parse_i64("007"), Some(7));
    assert_eq!(parse_i64("0"), Some(0));
    assert_eq!(parse_i64("-0"), Some(0));
    assert_eq!(parse_i64("9223372036854775807"), Some(i64::MAX));
    assert_eq!(parse_i64("-9223372036854775808"), Some(i64::MIN));
}

#[test]
fn parse_i64_rejects_other_texts() {
    for s in [
        "", "-", "+", " 1", "1 ", "1a", "--1", "+-1", "1.0", "9223372036854775808",
        "-9223372036854775809", "123456789012345678901234567890", "\u{661}",
    ] {
        assert_eq!(parse_i64(s), None, "{:?}", s);
    }
}

#[test]
fn parse_i64_agrees_with_std() {
    let samples = [
        "0", "1", "-1", "+1", "", "-", "+", "12a", "a12", "18446744073709551615",
        "9223372036854775807", "9223372036854775808", "-9223372036854775808",
        "-9223372036854775809", "000000000000000000000000001", "+0", "-00", " 5",
    ];
    for s in samples {
        assert_eq!(parse_i64(s), s.parse::<i64>().ok(), "{:?}", s);
    }
}

#[test]
fn format_i64_matches_to_string() {
    for n in [0i64, 1, -1, 9, 10, -10, 99, 100, 123456789, i64::MAX, i64::MIN, i64::MIN + 1] {
        assert_eq!(format_i64(n), n.to_string());
    }
}

#[test]
fn decimal_text_reads_back() {
    for n in [0i64, 5, -5, 1000, -1000, i64::MAX, i64::MIN] {
        assert_eq!(parse_i64(&format_i64(n)), Some(n));
    }
}

#[test]
fn chars_of_splits_into_characters() {
    assert_eq!(chars_of("aé1"), vec!['a', 'é', '1']);
    assert_eq!(chars_of(""), Vec::<char>::new());
}
