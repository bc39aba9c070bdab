use bevy_embasset::path::{folder_of, same_path, starts_with, strip_prefix};

#[test]
fn prefix_tests_are_literal() {
    assert!(starts_with("directory/asset.png", "directory"));
    assert!(starts_with("asset.png", "asset"));
    assert!(starts_with("abc", ""));
    assert!(!starts_with("ab", "abc"));
    assert!(!starts_with("xbc", "abc"));
    assert!(starts_with("é://ü", "é://"));
}

#[test]
fn strip_and_compare() {
    assert_eq!(strip_prefix("dummy://dummy", "dummy://"), "dummy");
    assert_eq!(strip_prefix("é://ü", "é://"), "ü");
    assert!(same_path("a/b", "a/b"));
    assert!(!same_path("a/b", "a/bc"));
    assert!(!same_path("a/b", "a/c"));
}

#[test]
fn folder_form() {
    assert_eq!(folder_of("directory"), "directory/");
    assert_eq!(folder_of("directory/"), "directory/");
    assert_eq!(folder_of(""), "");
}
