use monitor_tray_control::text::{is_blank, parse_u16, same_text, strip_prefix, to_decimal};

#[test]
fn decimal_is_what_formatting_gives() {
    for n in 0..=65535u16 {
        assert_eq!(to_decimal(n), n.to_string());
    }
}

#[test]
fn numbers_parse_as_in_the_standard_library() {
    for s in ["", "+", "-", "0", "00", "+0", "007", "65535", "65536", "99999999999999999999",
        "+65535", "++1", "-1", "1+", " 1", "1 ", "1.0", "0x1", "\u{ff11}", "12a", "000000065535"]
    {
        assert_eq!(parse_u16(s), s.parse::<u16>().ok(), "{}", s);
    }
}

#[test]
fn written_numbers_are_read_back() {
    for n in 0..=65535u16 {
        assert_eq!(parse_u16(&to_decimal(n)), Some(n));
    }
}

#[test]
fn texts_compare_by_character() {
    assert!(same_text("", ""));
    assert!(same_text("a\u{e9}", "a\u{e9}"));
    assert!(!same_text("a", "ab"));
    assert!(!same_text("ab", "aB"));
}

#[test]
fn prefix_is_stripped_once() {
    assert_eq!(strip_prefix("preset:preset:1", "preset:"), Some("preset:1"));
    assert_eq!(strip_prefix("\u{e9}x", "\u{e9}"), Some("x"));
    assert_eq!(strip_prefix("pre", "preset:"), None);
    assert_eq!(strip_prefix("Preset:1", "preset:"), None);
    assert_eq!(strip_prefix("abc", ""), Some("abc"));
}

#[test]
fn blank_text_is_white_space_only() {
    assert!(is_blank(""));
    assert!(is_blank(" \t\r\n\u{85}\u{a0}\u{1680}\u{2003}\u{2028}\u{202f}\u{205f}\u{3000}"));
    assert!(!is_blank("\u{200b}"));
    assert!(!is_blank(" x "));
}
