use std::path::PathBuf;

use sync_image::paths::{build_user_dir, dirs_to_ensure, validate_user_name, UserNameRule};

#[test]
fn builds_single_component_user_path() {
    let path = build_user_dir("/data/shared-images", "alice.dev").expect("path");
    assert_eq!(PathBuf::from(path), PathBuf::from("/data/shared-images/alice.dev"));
}

#[test]
fn rejects_traversal_user_path() {
    let err = build_user_dir("/data/shared-images", "../alice").expect_err("invalid");
    assert!(err.message().contains("single path component"));
}

#[test]
fn joins_without_doubling_separator() {
    assert_eq!(build_user_dir("/data/", "bob").expect("path"), "/data/bob");
    assert_eq!(build_user_dir("", "bob").expect("path"), "bob");
}

#[test]
fn user_name_rules_in_order() {
    assert_eq!(validate_user_name("").unwrap_err().rule, UserNameRule::Missing);
    let dot = validate_user_name("..").unwrap_err();
    assert_eq!(dot.rule, UserNameRule::Reserved);
    assert_eq!(dot.message(), "user_name cannot be '..'");
    assert_eq!(validate_user_name("a\\b").unwrap_err().rule, UserNameRule::NotSingleComponent);
    assert_eq!(validate_user_name("al ice").unwrap_err().rule, UserNameRule::InvalidCharacter);
    assert_eq!(validate_user_name("é").unwrap_err().rule, UserNameRule::InvalidCharacter);
    assert!(validate_user_name("A-b_c.9").is_ok());
    assert!(validate_user_name("...").is_ok());
}

#[test]
fn ensures_each_directory_top_down() {
    assert_eq!(
        dirs_to_ensure("/mnt/share/images/alice"),
        vec!["/mnt", "/mnt/share", "/mnt/share/images", "/mnt/share/images/alice"]
    );
    assert_eq!(dirs_to_ensure("data//alice/"), vec!["data", "data//alice"]);
    assert!(dirs_to_ensure("/").is_empty());
    assert!(dirs_to_ensure("").is_empty());
}
