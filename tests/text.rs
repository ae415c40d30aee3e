use miitopia::text::{chars_of, decimal_text, equals_text, is_space, seconds_text, trim_text};

#[test]
fn trims_unicode_space() {
    assert_eq!(trim_text("  a b \n"), "a b");
    assert_eq!(trim_text("\u{3000}x\u{a0}"), "x");
    assert_eq!(trim_text(" \t\n "), "");
    assert_eq!(trim_text(""), "");
    assert_eq!(trim_text("ab"), "ab");
}

#[test]
fn space_agrees_with_std() {
    for c in (0u32..0x3100).filter_map(char::from_u32) {
        assert_eq!(is_space(c), c.is_whitespace(), "{:?}", c);
    }
}

#[test]
fn decimals() {
    assert_eq!(decimal_text(0), "0");
    assert_eq!(decimal_text(7), "7");
    assert_eq!(decimal_text(404), "404");
    assert_eq!(decimal_text(u64::MAX), u64::MAX.to_string());
}

#[test]
fn seconds_with_milliseconds() {
    assert_eq!(seconds_text(0), "0.000");
    assert_eq!(seconds_text(10_000), "10.000");
    assert_eq!(seconds_text(1_005), "1.005");
    assert_eq!(seconds_text(123_450), "123.450");
}

#[test]
fn characters_and_equality() {
    assert_eq!(chars_of("h\u{e9}!"), vec!['h', '\u{e9}', '!']);
    assert!(equals_text(&"abc".to_string(), "abc"));
    assert!(!equals_text(&"abc".to_string(), "abd"));
}
