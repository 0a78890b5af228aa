use cc_pulseline::classify::{truncate_path, truncate_str};
use cc_pulseline::env::encode_project_path;

#[test]
fn encode_project_path_replaces_slashes_and_dots() {
    assert_eq!(
        encode_project_path("/Users/gregho/GitHub/AI/cc-pulseline"),
        "-Users-gregho-GitHub-AI-cc-pulseline"
    );
}

#[test]
fn encode_project_path_handles_dots() {
    assert_eq!(
        encode_project_path("/Users/greg.ho/my.project"),
        "-Users-greg-ho-my-project"
    );
}

#[test]
fn encode_project_path_strips_trailing_slash() {
    assert_eq!(
        encode_project_path("/Users/gregho/project/"),
        "-Users-gregho-project"
    );
}

#[test]
fn truncate_str_ascii() {
    assert_eq!(truncate_str("hello", 10), "hello");
    assert_eq!(truncate_str("hello world", 8), "hello...");
}

#[test]
fn truncate_str_multibyte_utf8() {
    let s = "✓Read|✓Bash|✓ Read";
    assert_eq!(truncate_str(s, 5), "✓R...");
    assert_eq!(truncate_str(s, 3), "✓Re");
    assert_eq!(truncate_str(s, 2), "✓R");
}

#[test]
fn truncate_path_multibyte_utf8() {
    let path = "/tmp/日本語/ファイル.rs";
    let result = truncate_path(path, 15);
    assert!(!result.is_empty());
    assert!(result.chars().count() <= 15);
}
