use instant_dev::identity::{configure_git_details, set_details};
use instant_dev::sshconfig::{build_host_block, merge_host_block};

const BLOCK: &str =
    "Host github.com\n  AddKeysToAgent yes\n  UseKeychain yes\n  IdentityFile ~/.ssh/id_ed25519\n";

#[test]
fn test_host_block_rendering() {
    let block = build_host_block("github.com", "~/.ssh/id_ed25519");
    assert_eq!(block, BLOCK);
}

#[test]
fn test_merge_appends_block_once() {
    // Merging the same block twice leaves exactly one occurrence.
    let (once, appended) = merge_host_block("", BLOCK);
    assert!(appended);
    assert_eq!(once, BLOCK);
    let (twice, appended_again) = merge_host_block(&once, BLOCK);
    assert!(!appended_again);
    assert_eq!(twice, once);
    assert_eq!(twice.matches(BLOCK).count(), 1);
}

#[test]
fn test_merge_preserves_existing_content() {
    let existing = "Host other.example\n  IdentityFile ~/.ssh/id_rsa\n";
    let (merged, appended) = merge_host_block(existing, BLOCK);
    assert!(appended);
    assert!(merged.starts_with(existing));
    assert!(merged.ends_with(BLOCK));
    let (again, appended_again) = merge_host_block(&merged, BLOCK);
    assert!(!appended_again);
    assert_eq!(again, merged);
}

#[test]
fn test_configure_git_details_reports_failed_setting() {
    assert!(configure_git_details("user.name", "alice", true).is_ok());
    let err = configure_git_details("user.name", "alice", false).unwrap_err();
    assert_eq!(err.setting, "user.name");
    assert_eq!(err.value, "alice");
}

#[test]
fn test_set_details_ok_when_both_apply() {
    assert!(set_details("alice", "alice@example.com", true, true).is_ok());
}

#[test]
fn test_set_details_name_failure_comes_first() {
    let err = set_details("alice", "alice@example.com", false, true).unwrap_err();
    assert_eq!(err.setting, "user.name");
    assert_eq!(err.value, "alice");
    // Even when both would fail, the name is reported first.
    let err = set_details("alice", "alice@example.com", false, false).unwrap_err();
    assert_eq!(err.setting, "user.name");
}

#[test]
fn test_set_details_email_failure() {
    let err = set_details("alice", "alice@example.com", true, false).unwrap_err();
    assert_eq!(err.setting, "user.email");
    assert_eq!(err.value, "alice@example.com");
}
