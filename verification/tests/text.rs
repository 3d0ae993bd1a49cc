use bevy_openusd::text::{
    copy_texts, holds_text, join2, join3, same_text, segment_before, strip_prefix,
};

#[test]
fn texts_are_the_same_or_not() {
    assert!(same_text("", ""));
    assert!(same_text("täglich", "täglich"));
    assert!(!same_text("a", ""));
    assert!(!same_text("ab", "ac"));
    assert!(!same_text("ab", "abc"));
}

#[test]
fn a_prefix_is_cut_off_once() {
    assert_eq!(strip_prefix("!invert!!invert!x", "!invert!"), Some("!invert!x"));
    assert_eq!(strip_prefix("abc", ""), Some("abc"));
    assert_eq!(strip_prefix("ab", "ab"), Some(""));
    assert_eq!(strip_prefix("ab", "abc"), None);
    assert_eq!(strip_prefix("xab", "ab"), None);
}

#[test]
fn a_segment_ends_before_its_mark() {
    assert_eq!(segment_before("translate:pivot:more", ':'), "translate");
    assert_eq!(segment_before("translate", ':'), "translate");
    assert_eq!(segment_before(":x", ':'), "");
    assert_eq!(segment_before("", ':'), "");
}

#[test]
fn texts_are_joined_in_order() {
    assert_eq!(join2("a", "b"), "ab");
    assert_eq!(join3("a", "", "b"), "ab");
    assert_eq!(join3("limit:", "rotX", ":physics:"), "limit:rotX:physics:");
}

#[test]
fn lists_hold_what_was_put_in() {
    let list = vec!["a".to_string(), "b".to_string()];
    assert!(holds_text(&list, "b"));
    assert!(!holds_text(&list, "c"));
    assert_eq!(copy_texts(&list), list);
}
