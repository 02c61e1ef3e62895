use archive_replicator::text::{
    contains_char, decimal_text, replace_char, same_text, short_id, split, split_last, starts_with,
};

#[test]
fn characters_are_replaced_everywhere() {
    assert_eq!(replace_char("/a//b/", '/', ':'), ":a::b:");
    assert_eq!(replace_char("", '/', ':'), "");
    assert_eq!(replace_char("äöü", 'ö', 'o'), "äoü");
}

#[test]
fn texts_are_split_at_every_separator() {
    assert_eq!(split("2026-03-05", '-'), vec!["2026", "03", "05"]);
    assert_eq!(split("", '-'), vec![""]);
    assert_eq!(split("-", '-'), vec!["", ""]);
    assert_eq!(split("--a", '-'), vec!["", "", "a"]);
    assert_eq!(split("plain", '-'), vec!["plain"]);
}

#[test]
fn prefixes_are_recognised() {
    assert!(starts_with("_sync/index.json", "_sync/"));
    assert!(starts_with("_sync/", "_sync/"));
    assert!(starts_with("anything", ""));
    assert!(!starts_with("_sync", "_sync/"));
    assert!(!starts_with("a_sync/", "_sync/"));
}

#[test]
fn equal_texts_are_the_same() {
    assert!(same_text("abc", "abc"));
    assert!(same_text("", ""));
    assert!(!same_text("abc", "abcd"));
    assert!(!same_text("abcd", "abc"));
    assert!(!same_text("abc", "abd"));
}

#[test]
fn short_ids_keep_sixteen_bytes() {
    assert_eq!(short_id("0123456789abcdef0123"), "0123456789abcdef");
    assert_eq!(short_id("0123456789abcdef"), "0123456789abcdef");
    assert_eq!(short_id("short"), "short");
    assert_eq!(short_id(""), "");
    // Two bytes for each character: eight of them are kept.
    assert_eq!(short_id("ääääääääää"), "ääääääää");
}

#[test]
fn numbers_are_written_in_decimal() {
    for n in [0u64, 7, 9, 10, 99, 100, 4400, 65535, u64::MAX] {
        assert_eq!(decimal_text(n), n.to_string());
    }
}

#[test]
fn texts_are_parted_after_the_last_separator() {
    let parts = |text: &str| split_last(text, '/');
    assert_eq!(parts("a/b/c"), ("a/b/".to_string(), "c".to_string()));
    assert_eq!(parts("a/"), ("a/".to_string(), String::new()));
    assert_eq!(parts("a"), (String::new(), "a".to_string()));
    assert_eq!(parts(""), (String::new(), String::new()));
}

#[test]
fn characters_are_found() {
    assert!(contains_char("a:b", ':'));
    assert!(!contains_char("ab", ':'));
    assert!(!contains_char("", ':'));
}
