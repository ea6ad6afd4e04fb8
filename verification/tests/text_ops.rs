use sql_cli::text::{
    decimal, is_white_space, join, split_once, str_eq, take_chars,
    trim, trim_end,
};

#[test]
fn trim_removes_unicode_whitespace_on_both_sides() {
    assert_eq!(trim("  \t select 1 \n"), "select 1");
    assert_eq!(trim("\u{3000}\u{a0}x y\u{2003}"), "x y");
    assert_eq!(trim("   "), "");
    assert_eq!(trim(""), "");
}

#[test]
fn trim_end_keeps_leading_whitespace() {
    assert_eq!(trim_end("  a b \t\r\n"), "  a b");
    assert_eq!(trim_end("\n\n"), "");
}

#[test]
fn white_space_matches_std() {
    for c in (0u32..=0x10ffff).filter_map(char::from_u32) {
        assert_eq!(is_white_space(c), c.is_whitespace(), "{:?}", c);
    }
}

#[test]
fn split_once_cuts_at_first_space() {
    assert_eq!(split_once("dialect my sql", ' '), ("dialect", Some("my sql")));
    assert_eq!(split_once("quit", ' '), ("quit", None));
    assert_eq!(split_once("ast ", ' '), ("ast", Some("")));
    assert_eq!(split_once(" x", ' '), ("", Some("x")));
}

#[test]
fn take_chars_counts_characters_not_bytes() {
    assert_eq!(take_chars("héllo wörld", 4), "héll");
    assert_eq!(take_chars("ab", 72), "ab");
    let long: String = "x".repeat(100);
    assert_eq!(take_chars(&long, 72).chars().count(), 72);
}

#[test]
fn join_puts_separator_between_parts_only() {
    let parts = vec!["a".to_string(), "b".to_string(), "c".to_string()];
    assert_eq!(join(&parts, ";\n"), "a;\nb;\nc");
    assert_eq!(join(&vec![], " "), "");
    assert_eq!(join(&vec!["one".to_string()], " "), "one");
}

#[test]
fn decimal_writes_numbers_like_display() {
    for n in [0usize, 7, 10, 42, 100, 9999, 123456789] {
        assert_eq!(decimal(n), n.to_string());
    }
}

#[test]
fn character_tests() {
    assert!(str_eq("abc", "abc"));
    assert!(!str_eq("abc", "abd"));
    assert!(!str_eq("abc", "ab"));
}

