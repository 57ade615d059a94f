use redquill::diff::FileChangeKind;
use redquill::forge::{forge_error_headline, ForgeError};
use redquill::git::{ChangeKind, FileStatus, StatusCode};
use redquill::stage_ops::{
    kind_from_staged_code, staged_from_status, staged_state, staged_states_from_status, StagedFile,
    StagedState,
};

fn status(kind: ChangeKind, staged: StatusCode, unstaged: StatusCode, path: &str) -> FileStatus {
    FileStatus { kind, staged, unstaged, path: path.to_string(), orig_path: None }
}

fn ordinary(staged: StatusCode, unstaged: StatusCode) -> FileStatus {
    status(ChangeKind::Ordinary, staged, unstaged, "f.rs")
}

#[test]
fn unstaged_when_working_tree_only_modification() {
    let s = ordinary(StatusCode::Unmodified, StatusCode::Modified);
    assert_eq!(staged_state(&s), StagedState::Unstaged);
}

#[test]
fn full_when_staged_modification_only() {
    let s = ordinary(StatusCode::Modified, StatusCode::Unmodified);
    assert_eq!(staged_state(&s), StagedState::Full);
}

#[test]
fn partial_when_both_staged_and_unstaged_modification() {
    let s = ordinary(StatusCode::Modified, StatusCode::Modified);
    assert_eq!(staged_state(&s), StagedState::Partial);
}

#[test]
fn full_when_staged_addition() {
    let s = ordinary(StatusCode::Added, StatusCode::Unmodified);
    assert_eq!(staged_state(&s), StagedState::Full);
}

#[test]
fn partial_when_added_then_modified() {
    let s = ordinary(StatusCode::Added, StatusCode::Modified);
    assert_eq!(staged_state(&s), StagedState::Partial);
}

#[test]
fn full_when_staged_deletion() {
    let s = ordinary(StatusCode::Deleted, StatusCode::Unmodified);
    assert_eq!(staged_state(&s), StagedState::Full);
}

#[test]
fn unstaged_when_untracked() {
    let s = status(ChangeKind::Untracked, StatusCode::Unmodified, StatusCode::Untracked, "new.rs");
    assert_eq!(staged_state(&s), StagedState::Unstaged);
}

#[test]
fn full_when_staged_rename() {
    let mut s = status(ChangeKind::RenamedOrCopied, StatusCode::Renamed, StatusCode::Unmodified, "new/name.rs");
    s.orig_path = Some("old/name.rs".to_string());
    assert_eq!(staged_state(&s), StagedState::Full);
}

#[test]
fn partial_when_renamed_then_modified() {
    let s = status(ChangeKind::RenamedOrCopied, StatusCode::Renamed, StatusCode::Modified, "new/name.rs");
    assert_eq!(staged_state(&s), StagedState::Partial);
}

#[test]
fn full_when_staged_copy() {
    let s = status(ChangeKind::RenamedOrCopied, StatusCode::Copied, StatusCode::Unmodified, "copy.rs");
    assert_eq!(staged_state(&s), StagedState::Full);
}

#[test]
fn unstaged_when_no_changes_on_either_side() {
    let s = ordinary(StatusCode::Unmodified, StatusCode::Unmodified);
    assert_eq!(staged_state(&s), StagedState::Unstaged);
}

#[test]
fn states_map_omits_unstaged_and_keys_partial_full_by_path() {
    let entries = vec![
        ordinary(StatusCode::Unmodified, StatusCode::Modified), // f.rs unstaged
        status(ChangeKind::Ordinary, StatusCode::Modified, StatusCode::Unmodified, "full.rs"),
        status(ChangeKind::Ordinary, StatusCode::Modified, StatusCode::Modified, "partial.rs"),
        status(ChangeKind::Untracked, StatusCode::Unmodified, StatusCode::Untracked, "new.rs"),
    ];
    let map = staged_states_from_status(&entries);
    // Unstaged (`f.rs`) and untracked (`new.rs`) are omitted.
    assert_eq!(map.len(), 2);
    assert_eq!(map.get("full.rs"), Some(StagedState::Full));
    assert_eq!(map.get("partial.rs"), Some(StagedState::Partial));
    assert_eq!(map.get("f.rs"), None);
    assert_eq!(map.get("new.rs"), None);
}

#[test]
fn kind_from_staged_code_maps_letters() {
    assert_eq!(kind_from_staged_code(StatusCode::Added), FileChangeKind::Added);
    assert_eq!(kind_from_staged_code(StatusCode::Deleted), FileChangeKind::Deleted);
    assert_eq!(kind_from_staged_code(StatusCode::Renamed), FileChangeKind::Renamed);
    assert_eq!(kind_from_staged_code(StatusCode::Copied), FileChangeKind::Copied);
    assert_eq!(kind_from_staged_code(StatusCode::Modified), FileChangeKind::Modified);
    assert_eq!(kind_from_staged_code(StatusCode::TypeChange), FileChangeKind::Modified);
}

#[test]
fn command_error_headline_is_the_first_stderr_line() {
    let e = ForgeError::Command {
        cli: "gh",
        command: "pr list".to_string(),
        code: "1".to_string(),
        stderr: "not logged in\nrun `gh auth login`".to_string(),
    };
    assert_eq!(forge_error_headline(&e), "not logged in");
}

#[test]
fn command_error_with_empty_stderr_falls_back_to_display() {
    let e = ForgeError::Command {
        cli: "gh",
        command: "pr list".to_string(),
        code: "1".to_string(),
        stderr: String::new(),
    };
    assert_eq!(forge_error_headline(&e), e.message());
}

#[test]
fn non_command_error_headline_is_the_display_string() {
    let e = ForgeError::CliNotFound { cli: "gh" };
    assert_eq!(forge_error_headline(&e), e.message());
    assert_eq!(e.message(), "gh not found on PATH");
}

#[test]
fn staged_list_keeps_staged_entries_in_order_with_their_index_letter() {
    let entries = vec![
        status(ChangeKind::Ordinary, StatusCode::Modified, StatusCode::Unmodified, "a.rs"),
        status(ChangeKind::Untracked, StatusCode::Unmodified, StatusCode::Untracked, "b.rs"),
        status(ChangeKind::Ordinary, StatusCode::Added, StatusCode::Modified, "c.rs"),
        status(ChangeKind::Ordinary, StatusCode::Unmodified, StatusCode::Modified, "d.rs"),
    ];
    assert_eq!(
        staged_from_status(&entries),
        vec![
            StagedFile { path: "a.rs".to_string(), letter: 'M' },
            StagedFile { path: "c.rs".to_string(), letter: 'A' },
        ]
    );
}

#[test]
fn a_later_status_entry_for_the_same_path_replaces_the_earlier_state() {
    let entries = vec![
        status(ChangeKind::Ordinary, StatusCode::Modified, StatusCode::Modified, "x.rs"),
        status(ChangeKind::Ordinary, StatusCode::Modified, StatusCode::Unmodified, "x.rs"),
    ];
    let map = staged_states_from_status(&entries);
    assert_eq!(map.len(), 1);
    assert_eq!(map.get("x.rs"), Some(StagedState::Full));
}

#[test]
fn default_staged_state_is_unstaged() {
    assert_eq!(StagedState::default(), StagedState::Unstaged);
}

#[test]
fn multi_line_stderr_with_crlf_endings_keeps_only_the_first_line() {
    let e = ForgeError::Command {
        cli: "glab",
        command: "mr list".to_string(),
        code: "2".to_string(),
        stderr: "boom\r\nmore".to_string(),
    };
    assert_eq!(forge_error_headline(&e), "boom");
}
