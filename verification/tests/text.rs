use scut_ai_proxy::text::{
    is_white_space, joined, padded_text, signed_text, text_contains, trimmed, unsigned_of,
    unsigned_text, without_text,
};

#[test]
fn knows_white_space_as_unicode_does() {
    for c in '\0'..=char::MAX {
        assert_eq!(is_white_space(c), c.is_whitespace(), "{c:?}");
    }
}

#[test]
fn trims_both_ends() {
    for text in ["", " ", "a", "\u{3000} a b\t\n", "\u{feff}a", "é\u{85}"] {
        assert_eq!(trimmed(text), text.trim());
    }
}

#[test]
fn writes_numbers() {
    assert_eq!(unsigned_text(0), "0");
    assert_eq!(unsigned_text(u128::MAX), u128::MAX.to_string());
    assert_eq!(signed_text(i64::MIN), i64::MIN.to_string());
    assert_eq!(signed_text(-7), "-7");
    assert_eq!(padded_text(42, 6), "000042");
    assert_eq!(padded_text(1_000_000, 6), "1000000");
    assert_eq!(padded_text(0, 0), "0");
}

#[test]
fn reads_numbers() {
    assert_eq!(unsigned_of("007", 10), Some(7));
    assert_eq!(unsigned_of("11", 10), None);
    assert_eq!(unsigned_of("10", 10), Some(10));
    assert_eq!(unsigned_of("++1", 10), None);
    assert_eq!(unsigned_of("", 10), None);
    assert_eq!(unsigned_of("3", 2), None);
}

#[test]
fn finds_and_removes_texts() {
    assert!(text_contains("abc", "bc") && text_contains("abc", "") && !text_contains("abc", "cb"));
    assert_eq!(without_text("aabaab", "ab"), "aabaab".replace("ab", ""));
    assert_eq!(without_text("aaa", "aa"), "a");
    assert_eq!(joined(&vec!["a".to_string(), "b".to_string()], ", "), "a, b");
    assert_eq!(joined(&vec![], ", "), "");
}
