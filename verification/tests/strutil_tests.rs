use viktor::strutil::{
    contains_bytes, dec_string, eq_ignore_case_lower, json_escape_string, should_exit, str_eq,
    str_lex_lt, str_starts_with, trim_ws,
};

#[test]
fn trim_removes_whitespace_both_ends() {
    assert_eq!(trim_ws("  hello \t\r\n"), "hello");
    assert_eq!(trim_ws("hello"), "hello");
    assert_eq!(trim_ws("   \t  "), "");
    assert_eq!(trim_ws(""), "");
    assert_eq!(trim_ws(" a b "), "a b");
}

#[test]
fn trim_covers_unicode_whitespace() {
    assert_eq!(trim_ws("\u{A0}hello\u{3000}"), "hello");
    assert_eq!(trim_ws("\u{2003}\u{2028}"), "");
    assert_eq!(trim_ws("a\u{A0}b"), "a\u{A0}b");
}

#[test]
fn exit_words_end_the_session() {
    assert!(should_exit(""));
    assert!(should_exit("   "));
    assert!(should_exit("exit"));
    assert!(should_exit("quit"));
    assert!(should_exit("EXIT"));
    assert!(should_exit("QuIt"));
    assert!(should_exit("  exit  "));
    assert!(should_exit("\u{A0}"));
    assert!(should_exit("\u{2002}quit\u{A0}"));
}

#[test]
fn other_lines_continue_the_session() {
    assert!(!should_exit("hello"));
    assert!(!should_exit("exit now"));
    assert!(!should_exit("quitx"));
    assert!(!should_exit("exi"));
}

#[test]
fn case_insensitive_match_against_lowercase_word() {
    assert!(eq_ignore_case_lower("Exit", "exit"));
    assert!(eq_ignore_case_lower("exit", "exit"));
    assert!(!eq_ignore_case_lower("exit!", "exit"));
    assert!(!eq_ignore_case_lower("exits", "exit"));
}

#[test]
fn lexicographic_string_order() {
    assert!(str_lex_lt("a", "b"));
    assert!(str_lex_lt("a", "ab"));
    assert!(!str_lex_lt("b", "a"));
    assert!(!str_lex_lt("a", "a"));
    assert!(str_lex_lt("a/b", "a/c"));
}

#[test]
fn string_equality_and_prefixes() {
    assert!(str_eq("abc", "abc"));
    assert!(!str_eq("abc", "abd"));
    assert!(!str_eq("abc", "abcd"));
    assert!(str_starts_with("abc/def", "abc"));
    assert!(!str_starts_with("ab", "abc"));
}

#[test]
fn byte_substring_search() {
    assert!(contains_bytes(b"hello <FINAL> world", b"<FINAL>"));
    assert!(!contains_bytes(b"hello world", b"<FINAL>"));
    assert!(contains_bytes(b"abc", b""));
    assert!(contains_bytes(b"abc", b"abc"));
    assert!(!contains_bytes(b"ab", b"abc"));
}

#[test]
fn decimal_rendering() {
    assert_eq!(dec_string(0), "0");
    assert_eq!(dec_string(7), "7");
    assert_eq!(dec_string(10), "10");
    assert_eq!(dec_string(90125), "90125");
    assert_eq!(dec_string(u64::MAX), "18446744073709551615");
}

#[test]
fn json_escaping_of_special_characters() {
    assert_eq!(json_escape_string("plain"), "plain");
    assert_eq!(json_escape_string("a\"b"), "a\\\"b");
    assert_eq!(json_escape_string("a\\b"), "a\\\\b");
    assert_eq!(json_escape_string("a\nb\tc\r"), "a\\nb\\tc\\r");
    assert_eq!(json_escape_string("\u{1}"), "\\u0001");
    assert_eq!(json_escape_string("\u{1f}"), "\\u001f");
}

#[test]
fn json_escaping_round_trips_through_serde() {
    let raw = "line1\nline2\t\"quoted\" \\ backslash";
    let quoted = format!("\"{}\"", json_escape_string(raw));
    let back: serde_json::Value = serde_json::from_str(&quoted).unwrap();
    assert_eq!(back.as_str().unwrap(), raw);
}
