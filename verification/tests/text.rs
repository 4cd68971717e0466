use zigistry::text::{
    is_whitespace,
    joined, join_strings, parse_u64, split_once_at, str_eq_ignore_ascii_case, trim, u64_to_text,
};

#[test]
fn trim_removes_unicode_whitespace() {
    assert_eq!(trim("  a b \t\n"), "a b");
    assert_eq!(trim("\u{A0}x\u{3000}"), "x");
    assert_eq!(trim("   "), "");
    assert_eq!(trim(""), "");
}

#[test]
fn ascii_case_insensitive_equality() {
    assert!(str_eq_ignore_ascii_case("Zig", "zIG"));
    assert!(!str_eq_ignore_ascii_case("zig", "zag"));
    assert!(!str_eq_ignore_ascii_case("zig", "zigs"));
    assert!(!str_eq_ignore_ascii_case("É", "é"));
}

#[test]
fn decimal_text_and_parse() {
    assert_eq!(u64_to_text(0), "0");
    assert_eq!(u64_to_text(120), "120");
    assert_eq!(u64_to_text(u64::MAX), "18446744073709551615");
    assert_eq!(parse_u64("120"), Some(120));
    assert_eq!(parse_u64("+7"), Some(7));
    assert_eq!(parse_u64("007"), Some(7));
    assert_eq!(parse_u64("18446744073709551615"), Some(u64::MAX));
    assert_eq!(parse_u64("18446744073709551616"), None);
    assert_eq!(parse_u64(""), None);
    assert_eq!(parse_u64("+"), None);
    assert_eq!(parse_u64("-1"), None);
    assert_eq!(parse_u64(" 1"), None);
    assert_eq!(parse_u64("1a"), None);
    for n in [0u64, 9, 10, 99, 1000, 123456789] {
        assert_eq!(parse_u64(&u64_to_text(n)), Some(n));
    }
}

#[test]
fn split_and_join() {
    assert_eq!(split_once_at("a/b/c", '/'), ("a".to_string(), Some("b/c".to_string())));
    assert_eq!(split_once_at("abc", '/'), ("abc".to_string(), None));
    assert_eq!(join_strings(&vec!["a".to_string(), "b".to_string()], ", "), "a, b");
    assert_eq!(join_strings(&vec![], ", "), "");
    assert_eq!(joined("gh/", "x"), "gh/x");
}

#[test]
fn whitespace_is_the_unicode_white_space_property() {
    for c in ['\t', '\n', '\u{B}', '\u{C}', '\r', ' ', '\u{85}', '\u{A0}', '\u{1680}', '\u{2000}',
        '\u{200A}', '\u{2028}', '\u{2029}', '\u{202F}', '\u{205F}', '\u{3000}'] {
        assert!(is_whitespace(c));
        assert_eq!(is_whitespace(c), c.is_whitespace());
    }
    for c in ['/', 'a', '\u{200B}', '\u{FEFF}', '\u{1F}', '\u{180E}'] {
        assert!(!is_whitespace(c));
        assert_eq!(is_whitespace(c), c.is_whitespace());
    }
    for u in 0..0x3100u32 {
        if let Some(c) = char::from_u32(u) {
            assert_eq!(is_whitespace(c), c.is_whitespace(), "{u:x}");
        }
    }
}
