use safehouse::settings::{optional, required};
use safehouse::text::{
    chars_of, contains, contains_text, decimal_text, is_whitespace, join, replace, replace_char, same, text_between,
    trim, trim_between,
};

#[test]
fn white_space_is_that_of_unicode() {
    for n in 0..=0x10FFFFu32 {
        if let Some(c) = char::from_u32(n) {
            assert_eq!(is_whitespace(c), c.is_whitespace(), "{n:x}");
        }
    }
}

#[test]
fn texts_are_trimmed_as_the_language_trims_them() {
    for s in ["", " ", " a b ", "\u{a0}x\u{3000}", "x", "\t\n"] {
        assert_eq!(trim(s), s.trim());
    }
    assert_eq!(trim_between(&chars_of("a b c"), 1, 4), "b");
}

#[test]
fn parts_are_found_and_replaced() {
    for (s, p) in [("abcabc", "bc"), ("aaaa", "aa"), ("abc", ""), ("", "a"), ("→→", "→"), ("abc", "abcd")] {
        assert_eq!(contains(s, p), s.contains(p), "{s} {p}");
        if !p.is_empty() {
            assert_eq!(replace(s, p, "<>"), s.replace(p, "<>"), "{s} {p}");
        }
    }
    assert_eq!(replace("abc", "", "x"), "abc");
    assert_eq!(replace_char("a_b_c", '_', '-'), "a-b-c");
}

#[test]
fn numbers_are_written_in_decimal() {
    for n in [0u64, 9, 10, 65_535, u64::MAX] {
        assert_eq!(decimal_text(n), n.to_string());
    }
}

#[test]
fn texts_are_joined_and_taken_apart() {
    let parts = vec!["a".to_owned(), "b".to_owned(), "c".to_owned()];
    assert_eq!(join(&parts, ", "), "a, b, c");
    assert_eq!(join(&Vec::new(), ", "), "");
    assert!(contains_text(&parts, "b"));
    assert!(!contains_text(&parts, "d"));
    assert!(same("→", "→"));
    assert!(!same("a", "b"));
    assert_eq!(text_between(&chars_of("a→b"), 1, 3), "→b");
}

#[test]
fn settings_are_there_or_not() {
    assert_eq!(required("X", &Some("v".to_owned())), Ok("v".to_owned()));
    assert_eq!(required("X", &None), Err("X must be set".to_owned()));
    assert_eq!(optional(&None, "d"), "d");
    assert_eq!(optional(&Some("v".to_owned()), "d"), "v");
}
