use std::cell::RefCell;

use redquill::app::{App, Mode, ModeOrigin};
use redquill::decimal::push_i64;
use redquill::git::{ChangeKind, DiffTarget, FileStatus, GitError, LocalBranch, StatusCode};
use redquill::review_branch::ReviewBranchState;
use redquill::review_launcher::LauncherTab;
use redquill::stage_ops::{StageOps, StagedFile};
use redquill::switcher::SwitcherState;
use redquill::time_format::rfc3339_fits_i64;

struct Unstager {
    fail: bool,
    remaining: Vec<FileStatus>,
    calls: RefCell<Vec<String>>,
}

impl StageOps for Unstager {
    fn status(&self) -> Result<Vec<FileStatus>, GitError> {
        Ok(self.remaining.clone())
    }
    fn stage_file(&self, _path: &str) -> Result<(), GitError> {
        Ok(())
    }
    fn unstage_file(&self, path: &str) -> Result<(), GitError> {
        self.calls.borrow_mut().push(path.to_string());
        if self.fail {
            Err(GitError::Parse("index locked".to_string()))
        } else {
            Ok(())
        }
    }
}

fn staged(paths: &[&str]) -> Vec<StagedFile> {
    paths.iter().map(|p| StagedFile { path: p.to_string(), letter: 'M' }).collect()
}

fn staged_status(path: &str) -> FileStatus {
    FileStatus {
        kind: ChangeKind::Ordinary,
        staged: StatusCode::Modified,
        unstaged: StatusCode::Unmodified,
        path: path.to_string(),
        orig_path: None,
    }
}

fn branch(name: &str) -> LocalBranch {
    LocalBranch { name: name.to_string(), is_current: false, worktree: None }
}

#[test]
fn unstaging_the_focused_file_reports_it_and_rereads_the_list() {
    let ops = Unstager { fail: false, remaining: vec![staged_status("b.rs")], calls: RefCell::new(Vec::new()) };
    let mut app = App::new(Vec::new());
    app.mode = Mode::Staging;
    app.staged = staged(&["a.rs", "b.rs"]);
    app.staging_cursor = 1;
    app.unstage_focused_file(Some(&ops));
    assert_eq!(*ops.calls.borrow(), vec!["b.rs".to_string()]);
    assert_eq!(app.status_message.as_deref(), Some("unstaged b.rs"));
    assert_eq!(app.staged, staged(&["b.rs"]));
    assert_eq!(app.staging_cursor, 0);
    assert_eq!(app.mode, Mode::Staging);
}

#[test]
fn a_failed_unstage_changes_nothing_but_the_footer() {
    let ops = Unstager { fail: true, remaining: Vec::new(), calls: RefCell::new(Vec::new()) };
    let mut app = App::new(Vec::new());
    app.staged = staged(&["a.rs"]);
    app.unstage_focused_file(Some(&ops));
    assert_eq!(app.status_message.as_deref(), Some("could not read git output: index locked"));
    assert_eq!(app.staged, staged(&["a.rs"]));
}

#[test]
fn unstaging_on_an_empty_panel_does_nothing() {
    let ops = Unstager { fail: false, remaining: Vec::new(), calls: RefCell::new(Vec::new()) };
    let mut app = App::new(Vec::new());
    app.unstage_focused_file(Some(&ops));
    assert!(ops.calls.borrow().is_empty());
    assert_eq!(app.status_message, None);
}

#[test]
fn staging_panel_motions_clamp_to_the_list() {
    let mut app = App::new(Vec::new());
    app.viewport_height = 4;
    app.staged = staged(&["a", "b", "c", "d", "e", "f", "g"]);
    app.staging_move_down();
    assert_eq!(app.staging_cursor, 1);
    app.staging_half_page_down();
    assert_eq!(app.staging_cursor, 3);
    app.staging_full_page_down();
    assert_eq!(app.staging_cursor, 6);
    app.staging_full_page_up();
    assert_eq!(app.staging_cursor, 2);
    app.staging_half_page_up();
    assert_eq!(app.staging_cursor, 0);
    app.staging_move_up();
    assert_eq!(app.staging_cursor, 0);
    app.staging_jump_to_bottom();
    assert_eq!(app.staging_cursor, 6);
    app.staging_jump_to_top();
    assert_eq!(app.staging_cursor, 0);
    app.mode = Mode::Staging;
    app.close_staging();
    assert_eq!(app.mode, Mode::Normal);
}

#[test]
fn switcher_page_motions_step_by_the_viewport() {
    let mut app = App::new(Vec::new());
    app.viewport_height = 6;
    let branches: Vec<LocalBranch> = (0..20).map(|i| branch(&format!("b{i}"))).collect();
    app.switcher = Some(SwitcherState::new(branches, Vec::new(), None, 0));
    app.switcher_half_page_down();
    assert_eq!(app.switcher.as_ref().unwrap().branch_cursor, 3);
    app.switcher_full_page_down();
    assert_eq!(app.switcher.as_ref().unwrap().branch_cursor, 9);
    app.switcher_full_page_up();
    assert_eq!(app.switcher.as_ref().unwrap().branch_cursor, 3);
    app.switcher_half_page_up();
    assert_eq!(app.switcher.as_ref().unwrap().branch_cursor, 0);
    app.switcher_move_down();
    app.switcher_move_up();
    assert_eq!(app.switcher.as_ref().unwrap().branch_cursor, 0);
    app.switcher_toggle_tab();
    assert_eq!(app.switcher.as_ref().unwrap().tab, redquill::switcher::SwitcherTab::Worktrees);
}

#[test]
fn switcher_motions_without_a_switcher_do_nothing() {
    let mut app = App::new(Vec::new());
    app.switcher_full_page_down();
    app.switcher_move_up();
    assert!(app.switcher.is_none());
}

#[test]
fn the_review_branch_modal_cursor_moves_and_clamps() {
    let mut app = App::new(Vec::new());
    app.review_branch_modal = Some(ReviewBranchState::new(vec![branch("a"), branch("b")], 0));
    app.review_branch_move_down();
    app.review_branch_move_down();
    assert_eq!(app.review_branch_modal.as_ref().unwrap().cursor, 1);
    app.review_branch_move_up();
    app.review_branch_move_up();
    assert_eq!(app.review_branch_modal.as_ref().unwrap().cursor, 0);
}

#[test]
fn launcher_full_page_up_clamps_at_the_top() {
    let mut app = App::new(Vec::new());
    app.launcher_branches = (0..30).map(|i| branch(&format!("b{i}"))).collect();
    app.mode = Mode::ReviewLauncher { tab: LauncherTab::Branches, cursor: 25, origin: ModeOrigin::Normal };
    app.review_launcher_full_page_up();
    assert_eq!(app.mode, Mode::ReviewLauncher { tab: LauncherTab::Branches, cursor: 5, origin: ModeOrigin::Normal });
    app.review_launcher_full_page_up();
    assert_eq!(app.mode, Mode::ReviewLauncher { tab: LauncherTab::Branches, cursor: 0, origin: ModeOrigin::Normal });
}

#[test]
fn signed_numbers_print_with_their_sign() {
    let mut s = String::from("x=");
    push_i64(&mut s, -42);
    assert_eq!(s, "x=-42");
    let mut s = String::new();
    push_i64(&mut s, i64::MIN);
    assert_eq!(s, "-9223372036854775808");
}

#[test]
fn only_the_working_tree_is_live() {
    assert!(DiffTarget::WorkingTree.is_live());
    assert!(!DiffTarget::Staged.is_live());
}

#[test]
fn timestamps_whose_year_overflows_do_not_fit() {
    assert!(rfc3339_fits_i64("2024-05-01T12:00:00Z"));
    assert!(rfc3339_fits_i64("not a date"));
    assert!(!rfc3339_fits_i64("9223372036854775807-01-01T00:00:00Z"));
}
