use telegram_photo_geolocator_bot::number::{parse_unsigned, u64_text};
use telegram_photo_geolocator_bot::text::{
    blank, ends_with, join, starts_with, strip_prefix, strip_suffix, to_ascii_lowercase, trim,
    trim_decimal,
};

#[test]
fn trims_unicode_white_space() {
    assert_eq!(trim(" \t\u{3000}abc\u{a0}\n"), "abc");
    assert_eq!(trim("a b"), "a b");
    assert_eq!(trim("\u{200b}x"), "\u{200b}x");
    assert!(blank(" \u{2028} "));
    assert!(!blank(" . "));
}

#[test]
fn trims_rendered_decimals() {
    assert_eq!(trim_decimal("41.7000000"), "41.7");
    assert_eq!(trim_decimal("100.0000000"), "100");
    assert_eq!(trim_decimal("-0.0000000"), "-0");
    assert_eq!(trim_decimal("180"), "18");
}

#[test]
fn reads_and_writes_unsigned_numbers() {
    assert_eq!(parse_unsigned("20", u64::MAX), Some(20));
    assert_eq!(parse_unsigned("+5", u64::MAX), Some(5));
    assert_eq!(parse_unsigned("007", u64::MAX), Some(7));
    assert_eq!(parse_unsigned("", u64::MAX), None);
    assert_eq!(parse_unsigned("+", u64::MAX), None);
    assert_eq!(parse_unsigned("-1", u64::MAX), None);
    assert_eq!(parse_unsigned("1 ", u64::MAX), None);
    assert_eq!(parse_unsigned("4294967295", u32::MAX as u64), Some(4294967295));
    assert_eq!(parse_unsigned("4294967296", u32::MAX as u64), None);
    assert_eq!(parse_unsigned("18446744073709551615", u64::MAX), Some(u64::MAX));
    assert_eq!(parse_unsigned("18446744073709551616", u64::MAX), None);
    for value in [0u64, 9, 10, 12345, u64::MAX] {
        assert_eq!(u64_text(value), value.to_string());
        assert_eq!(parse_unsigned(&u64_text(value), u64::MAX), Some(value));
        assert_eq!(value.to_string().parse::<u64>().ok(), parse_unsigned(&value.to_string(), u64::MAX));
    }
}

#[test]
fn handles_prefixes_suffixes_and_case() {
    assert!(starts_with("image/png", "image/"));
    assert!(!starts_with("imag", "image/"));
    assert!(ends_with("fr.wikipedia.org", ".wikipedia.org"));
    assert_eq!(strip_prefix("http://x", "https://"), None);
    assert_eq!(strip_prefix("https://x", "https://").as_deref(), Some("x"));
    assert_eq!(strip_suffix("en.wikipedia.org", ".wikipedia.org").as_deref(), Some("en"));
    assert_eq!(to_ascii_lowercase("ÀbC-9"), "Àbc-9");
    assert_eq!(join(&vec!["a".to_string(), "b".to_string()], ", "), "a, b");
    assert_eq!(join(&Vec::new(), ", "), "");
}
