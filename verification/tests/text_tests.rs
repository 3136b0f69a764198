use nlm::adapters::safe_filename;
use nlm::text::{
    after_last_char, contains_str, ends_with, is_blank, join_strings, pad_right_str, replace_char_str, replace_str,
    space_string, starts_with, trim_str,
};

#[test]
fn safe_filename_replaces_colon_and_slash() {
    assert_eq!(safe_filename("a:b/c"), "a-b-c");
    assert_eq!(safe_filename("plain"), "plain");
}

#[test]
fn safe_filename_keeps_length_and_other_characters() {
    let title = "Q1: Review / Étape 2";
    let safe = safe_filename(title);
    assert_eq!(safe, "Q1- Review - Étape 2");
    assert_eq!(safe.chars().count(), title.chars().count());
    assert!(!safe.contains(':') && !safe.contains('/'));
}

#[test]
fn trim_str_removes_unicode_whitespace() {
    assert_eq!(trim_str("  \t hello world \n"), "hello world");
    assert_eq!(trim_str("\u{3000}x\u{a0}"), "x");
    assert_eq!(trim_str("   "), "");
    assert!(is_blank(" \n\t "));
    assert!(!is_blank(" a "));
}

#[test]
fn prefix_suffix_and_contains() {
    assert!(starts_with("ppt/media/a.png", "ppt/media/"));
    assert!(!starts_with("ppt", "ppt/media/"));
    assert!(ends_with("slide1.xml", ".xml"));
    assert!(!ends_with("slide1.xm", ".xml"));
    assert!(contains_str("text/html; charset=utf-8", "text/html"));
    assert!(!contains_str("application/json", "text/html"));
    assert!(contains_str("abc", ""));
}

#[test]
fn replacing_and_joining() {
    assert_eq!(replace_str("{n}-{n}", "{n}", "x"), "x-x");
    assert_eq!(replace_str("aaa", "aa", "b"), "ba");
    assert_eq!(replace_char_str("a\nb\nc", '\n', ' '), "a b c");
    assert_eq!(after_last_char("a/b/c.png", '/'), "c.png");
    assert_eq!(after_last_char("c.png", '/'), "c.png");
    let parts = vec!["a".to_string(), "b".to_string(), "c".to_string()];
    assert_eq!(join_strings(&parts, ", "), "a, b, c");
    assert_eq!(join_strings(&Vec::new(), ", "), "");
}

#[test]
fn padding_to_a_width() {
    assert_eq!(pad_right_str("ab", 5), "ab   ");
    assert_eq!(pad_right_str("abcdef", 3), "abcdef");
    assert_eq!(pad_right_str("é", 2), "é ");
    assert_eq!(space_string(3), "   ");
}
