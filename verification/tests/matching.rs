//! Tests of the substring search that backs the description and pattern
//! queries.

use dns::matching::str_contains;

#[test]
fn empty_pattern_matches_everything() {
    assert!(str_contains("", ""));
    assert!(str_contains("abc", ""));
}

#[test]
fn pattern_longer_than_text_never_matches() {
    assert!(!str_contains("", "a"));
    assert!(!str_contains("ab", "abc"));
}

#[test]
fn finds_pattern_at_every_position() {
    assert!(str_contains("hello world", "hello"));
    assert!(str_contains("hello world", "o w"));
    assert!(str_contains("hello world", "world"));
    assert!(str_contains("hello world", "hello world"));
    assert!(!str_contains("hello world", "worlds"));
}

#[test]
fn matching_is_case_sensitive() {
    assert!(!str_contains("Hello", "hello"));
    assert!(str_contains("Hello", "Hell"));
}

#[test]
fn overlapping_occurrences_are_found() {
    assert!(str_contains("aaa", "aa"));
    assert!(str_contains("abab", "aba"));
}

#[test]
fn matches_whole_codepoints() {
    assert!(str_contains("café au lait", "fé"));
    assert!(str_contains("αβγ", "βγ"));
    assert!(!str_contains("αβγ", "δ"));
}

#[test]
fn repeated_prefix_backtracking() {
    assert!(str_contains("aaab", "aab"));
    assert!(!str_contains("aaac", "aab"));
}
