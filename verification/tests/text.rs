use pullyt::text::{char_is_space, chars_of, join_text, str_eq, string_from, trim};

#[test]
fn trim_removes_unicode_white_space_at_both_ends() {
    assert_eq!(trim("  a b \t\n"), "a b");
    assert_eq!(trim("\u{3000}\u{a0}x\u{2028}"), "x");
    assert_eq!(trim(""), "");
    assert_eq!(trim(" \u{85} "), "");
    assert_eq!(trim("\u{200b}x"), "\u{200b}x");
    for s in ["  a ", "\u{2000}b\u{200a}", "c", "\u{1680}", "\u{180e}d"] {
        assert_eq!(trim(s), s.trim());
    }
}

#[test]
fn space_test_matches_std() {
    for c in ['\t', '\n', '\u{b}', '\u{c}', '\r', ' ', '\u{85}', '\u{a0}', '\u{1680}', '\u{2000}', '\u{2005}', '\u{200a}', '\u{2028}', '\u{2029}', '\u{202f}', '\u{205f}', '\u{3000}', 'a', '\u{200b}', '\u{180e}', '\u{feff}', '_'] {
        assert_eq!(char_is_space(c), c.is_whitespace(), "{c:?}");
    }
}

#[test]
fn string_helpers() {
    assert_eq!(chars_of("héllo"), vec!['h', 'é', 'l', 'l', 'o']);
    assert_eq!(string_from(&['ü', 'x']), "üx");
    assert_eq!(join_text("ab", "cd"), "abcd");
    assert!(str_eq("none", "none"));
    assert!(!str_eq("none", "None"));
    assert!(!str_eq("no", "none"));
}
