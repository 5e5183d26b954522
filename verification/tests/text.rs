use standalone_tray::text::{contains_str, nth_word, split_once_char};

#[test]
fn nth_word_matches_split_whitespace() {
    let cases = ["Volume: 0.45 [MUTED]", "  a\t b\n", "", "   ", "one", "x\u{a0}y\u{3000}z"];
    for s in cases {
        for k in 0..4 {
            let expected = s.split_whitespace().nth(k).map(|w| w.to_string());
            assert_eq!(nth_word(s, k), expected, "{s:?} word {k}");
        }
    }
}

#[test]
fn contains_str_finds_substrings() {
    assert!(contains_str("Volume: 0.45 [MUTED]", "[MUTED]"));
    assert!(!contains_str("Volume: 0.45", "[MUTED]"));
    assert!(contains_str("abc", ""));
    assert!(contains_str("abc", "abc"));
    assert!(!contains_str("ab", "abc"));
    assert!(contains_str("aab", "ab"));
}

#[test]
fn split_once_char_splits_at_first() {
    assert_eq!(split_once_char(":1.23/org/ayatana", '/'), Some((":1.23".to_string(), "org/ayatana".to_string())));
    assert_eq!(split_once_char("org.kde.foo", '/'), None);
    assert_eq!(split_once_char("/x", '/'), Some((String::new(), "x".to_string())));
    assert_eq!(split_once_char("x/", '/'), Some(("x".to_string(), String::new())));
}
