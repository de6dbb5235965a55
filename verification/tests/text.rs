use talos::text::{
    chars_of, find_char, is_whitespace, matches_at, push_range, same_chars, same_text,
    starts_with, trim,
};

fn chars(s: &str) -> Vec<char> {
    s.chars().collect()
}

#[test]
fn strings_and_characters_convert_both_ways() {
    assert_eq!(chars_of("héllo"), vec!['h', 'é', 'l', 'l', 'o']);
    assert_eq!(chars_of(""), Vec::<char>::new());
    let mut out = "ab".to_string();
    push_range(&mut out, &chars("012345"), 2, 4);
    assert_eq!(out, "ab23");
}

#[test]
fn texts_are_compared() {
    assert!(same_text("", ""));
    assert!(same_text("abc", "abc"));
    assert!(!same_text("abc", "abd"));
    assert!(!same_text("abc", "ab"));
    assert!(same_chars(&chars("x"), &chars("x")));
    assert!(!same_chars(&chars("x"), &chars("")));
}

#[test]
fn the_first_occurrence_is_found() {
    assert_eq!(find_char(&chars("a\nb\nc"), '\n'), 1);
    assert_eq!(find_char(&chars("abc"), '\n'), 3);
    assert_eq!(find_char(&chars(""), 'x'), 0);
    assert_eq!(find_char(&chars("xx"), 'x'), 0);
}

#[test]
fn patterns_are_matched_in_place() {
    assert!(matches_at(&chars("hello"), 1, &chars("ell")));
    assert!(!matches_at(&chars("hello"), 2, &chars("ell")));
    assert!(!matches_at(&chars("hello"), 3, &chars("lox")));
    assert!(matches_at(&chars("hello"), 5, &chars("")));
    assert!(!matches_at(&chars("hello"), 6, &chars("")));
    assert!(starts_with("__KEEP__\nx", "__KEEP__"));
    assert!(!starts_with("_KEEP__", "__KEEP__"));
    assert!(starts_with("x", ""));
}

#[test]
fn white_space_is_trimmed_at_both_ends() {
    assert_eq!(trim(&chars("  a b \n")), chars("a b"));
    assert_eq!(trim(&chars("\t\r\n")), chars(""));
    assert_eq!(trim(&chars("")), chars(""));
    assert_eq!(trim(&chars("x")), chars("x"));
    assert_eq!(trim(&chars("\u{2003}x\u{85}")), chars("x"));
    for c in [' ', '\t', '\n', '\u{b}', '\u{c}', '\r', '\u{85}', '\u{a0}', '\u{1680}', '\u{2000}',
        '\u{200a}', '\u{2028}', '\u{2029}', '\u{202f}', '\u{205f}', '\u{3000}'] {
        assert!(is_whitespace(c));
        assert!(c.is_whitespace());
    }
    for c in ['a', '_', '\u{200b}', '\u{feff}', '\0', '\u{1c}'] {
        assert_eq!(is_whitespace(c), c.is_whitespace());
    }
}
