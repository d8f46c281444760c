use rsagent::text::{
    chars_of, collect_chars, concat2, concat3, contains, decimal_string, ends_with, is_blank_str,
    is_whitespace, owned, parse_u128, parse_u64, split_once_char, starts_with, str_eq,
    strip_prefix, strip_suffix, trim_str,
};

#[test]
fn trimming_follows_unicode_white_space() {
    assert_eq!(trim_str("  a b \t\n"), "a b");
    assert_eq!(trim_str("\u{3000}x\u{a0}"), "x");
    assert_eq!(trim_str("\u{200b}x"), "\u{200b}x");
    assert_eq!(trim_str(""), "");
    assert!(is_blank_str(" \r\n\u{2028}"));
    assert!(!is_blank_str(" . "));
    for c in ['\t', '\n', ' ', '\u{85}', '\u{1680}', '\u{2000}', '\u{205f}', 'a', '\u{180e}'] {
        assert_eq!(is_whitespace(c), c.is_whitespace(), "{c:?}");
    }
}

#[test]
fn prefixes_suffixes_and_substrings() {
    assert!(starts_with("nginx.service", "nginx"));
    assert!(!starts_with("ng", "nginx"));
    assert!(ends_with("nginx.service", ".service"));
    assert!(!ends_with("nginx.timer", ".service"));
    assert!(contains("abcabd", "abd"));
    assert!(contains("abc", ""));
    assert!(!contains("abc", "abcd"));
    assert!(str_eq("é", "é"));
    assert!(!str_eq("e", "é"));
    assert_eq!(strip_prefix("-1h", "-"), Some("1h".to_string()));
    assert_eq!(strip_prefix("1h", "-"), None);
    assert_eq!(strip_suffix("-1h", "h"), Some("-1".to_string()));
    assert_eq!(strip_suffix("h", "hh"), None);
}

#[test]
fn splitting_and_building() {
    assert_eq!(split_once_char("a\nb\nc", '\n'), Some(("a".to_string(), "b\nc".to_string())));
    assert_eq!(split_once_char("abc", '\n'), None);
    let v = chars_of("héllo");
    assert_eq!(v, vec!['h', 'é', 'l', 'l', 'o']);
    assert_eq!(collect_chars(&v, 1, 3), "él");
    assert_eq!(owned("x"), "x");
    assert_eq!(concat2("a", "b"), "ab");
    assert_eq!(concat3("a", "b", "c"), "abc");
}

#[test]
fn numbers_in_decimal() {
    assert_eq!(decimal_string(0), "0");
    assert_eq!(decimal_string(1234567890), "1234567890");
    assert_eq!(decimal_string(u128::MAX), u128::MAX.to_string());
    assert_eq!(parse_u64("42"), Some(42));
    assert_eq!(parse_u64("+7"), Some(7));
    assert_eq!(parse_u64("18446744073709551615"), Some(u64::MAX));
    assert_eq!(parse_u64("18446744073709551616"), None);
    assert_eq!(parse_u64(""), None);
    assert_eq!(parse_u64("+"), None);
    assert_eq!(parse_u64("-1"), None);
    assert_eq!(parse_u64("1 "), None);
    assert_eq!(parse_u128("340282366920938463463374607431768211455"), Some(u128::MAX));
    assert_eq!(parse_u128("340282366920938463463374607431768211456"), None);
    for s in ["0", "+12", "99x", "007", ""] {
        assert_eq!(parse_u64(s), s.parse::<u64>().ok(), "{s}");
    }
}
