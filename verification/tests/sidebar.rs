use redquill::sidebar::{footer_text, rename_suffix, split_path, staged_marker};
use redquill::stage_ops::StagedState;

#[test]
fn split_path_separates_the_directory_from_the_basename() {
    assert_eq!(split_path("src/auth/session.rs"), ("src/auth/".to_string(), "session.rs".to_string()));
    assert_eq!(split_path("main.rs"), (String::new(), "main.rs".to_string()));
    assert_eq!(split_path("dir/"), ("dir/".to_string(), String::new()));
}

#[test]
fn staged_markers_keep_paths_column_aligned() {
    assert_eq!(staged_marker(StagedState::Full), "\u{25cf} ");
    assert_eq!(staged_marker(StagedState::Partial), "\u{00b1} ");
    assert_eq!(staged_marker(StagedState::Unstaged), "  ");
}

#[test]
fn a_rename_names_its_original_basename() {
    assert_eq!(rename_suffix("old/dir/name.rs"), " \u{2190} name.rs");
}

#[test]
fn the_footer_counts_files_and_only_nonzero_staged_and_notes() {
    assert_eq!(footer_text(3, 0, 0), " [3 files]");
    assert_eq!(footer_text(3, 1, 2), " [3 files] [1 staged] [2 notes]");
    assert_eq!(footer_text(0, 0, 5), " [0 files] [5 notes]");
}
