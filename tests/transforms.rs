use fdname::transform::{
    checked_stem, hash, lowercase, prefix, remove, replace, strip_whitespace, suffix, to_decimal,
    uppercase, whitespace,
};
use std::hash::{Hash, Hasher};

#[test]
fn prefix_and_suffix() {
    assert_eq!(prefix("a", "x_"), "x_a");
    assert_eq!(suffix("a", "_y"), "a_y");
    assert_eq!(prefix("a", ""), "a");
}

#[test]
fn prefix_then_strip_gives_stem() {
    let p = "pre";
    for stem in ["a", "", "pre", "ünï"] {
        let r = prefix(stem, p);
        let back: String = r.chars().skip(p.chars().count()).collect();
        assert_eq!(back, stem);
    }
}

#[test]
fn replace_single() {
    assert_eq!(replace("old_name", "old", "new"), "new_name");
}

#[test]
fn replace_non_overlapping_left_to_right() {
    assert_eq!(replace("aaa", "aa", "b"), "ba");
    assert_eq!(replace("ababab", "ab", "x"), "xxx");
}

#[test]
fn replace_no_occurrence() {
    assert_eq!(replace("name", "zz", "y"), "name");
    assert_eq!(replace("ab", "abc", "y"), "ab");
}

#[test]
fn replace_empty_pattern_matches_std() {
    assert_eq!(replace("abc", "", "x"), "abc".replace("", "x"));
    assert_eq!(replace("", "", "x"), "x");
}

#[test]
fn replace_counts_lengths() {
    let s = "a-b-c-d";
    let r = replace(s, "-", "==");
    assert_eq!(r, "a==b==c==d");
    assert_eq!(r.chars().count(), s.chars().count() + 3 * (2 - 1));
}

#[test]
fn replace_matches_std_on_samples() {
    for (s, o, n) in [("hello world", "o", "0"), ("xxxx", "xx", "y"), ("ünïü", "ü", "u")] {
        assert_eq!(replace(s, o, n), s.replace(o, n));
    }
}

#[test]
fn replace_with_empty_is_remove() {
    assert_eq!(replace("a-b-c", "-", ""), remove("a-b-c", "-"));
    assert_eq!(remove("a-b-c", "-"), "abc");
}

#[test]
fn decimal_text() {
    assert_eq!(to_decimal(0), "0");
    assert_eq!(to_decimal(7), "7");
    assert_eq!(to_decimal(10), "10");
    assert_eq!(to_decimal(1234567890), "1234567890");
    assert_eq!(to_decimal(u64::MAX), "18446744073709551615");
}

#[test]
fn hash_is_stable_and_decimal() {
    let a = hash("some name");
    let b = hash("some name");
    assert_eq!(a, b);
    assert!(!a.is_empty());
    assert!(a.chars().all(|c| c.is_ascii_digit()));
    assert_ne!(a, "some name");
    let mut h = std::collections::hash_map::DefaultHasher::new();
    "some name".as_bytes().hash(&mut h);
    assert_eq!(a, h.finish().to_string());
}

#[test]
fn hash_differs_on_other_text() {
    assert_ne!(hash("a"), hash("b"));
}

#[test]
fn case_changes() {
    assert_eq!(lowercase("My File"), Some("my file".to_string()));
    assert_eq!(uppercase("My File"), Some("MY FILE".to_string()));
    assert_eq!(lowercase(""), None);
    assert_eq!(uppercase("ß"), Some("SS".to_string()));
}

#[test]
fn case_change_keeps_whole_stem() {
    assert_eq!(lowercase("A.B"), Some("a.b".to_string()));
    assert_eq!(uppercase("a.b"), Some("A.B".to_string()));
}

#[test]
fn checked_stem_of_texts() {
    assert_eq!(checked_stem("a.b".to_string()), Some("a.b".to_string()));
    assert_eq!(checked_stem("ab".to_string()), Some("ab".to_string()));
    assert_eq!(checked_stem(".x".to_string()), Some(".x".to_string()));
    assert_eq!(checked_stem("".to_string()), None);
    assert_eq!(checked_stem(".".to_string()), None);
    assert_eq!(checked_stem("..".to_string()), None);
}

#[test]
fn strip_whitespace_kinds() {
    assert_eq!(strip_whitespace("a b\tc\nd"), "abcd");
    assert_eq!(strip_whitespace("a\u{3000}b\u{a0}c"), "abc");
    assert_eq!(strip_whitespace("abc"), "abc");
    assert_eq!(strip_whitespace(" \t "), "");
}

#[test]
fn strip_whitespace_keeps_order_and_drops_all_space() {
    let s = " x y\u{2028}z ";
    let r = strip_whitespace(s);
    assert!(!r.chars().any(|c| c.is_whitespace()));
    let expected: String = s.chars().filter(|c| !c.is_whitespace()).collect();
    assert_eq!(r, expected);
}

#[test]
fn whitespace_rule() {
    assert_eq!(whitespace("My File"), Some("MyFile".to_string()));
    assert_eq!(whitespace(" \t "), None);
    assert_eq!(whitespace("a b.c"), Some("ab.c".to_string()));
    assert_eq!(whitespace("a.b"), Some("a.b".to_string()));
    assert_eq!(whitespace(" . "), None);
}
