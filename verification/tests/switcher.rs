use redquill::app::{App, Mode, PanelTab};
use redquill::git::{FileStatus, GitError, LocalBranch, WorktreeEntry};
use redquill::stage_ops::StageOps;
use redquill::switcher::{is_current_worktree, SwitcherState, SwitcherTab};

fn branch(name: &str, is_current: bool, worktree: Option<&str>) -> LocalBranch {
    LocalBranch { name: name.to_string(), is_current, worktree: worktree.map(str::to_string) }
}

fn worktree(path: &str) -> WorktreeEntry {
    WorktreeEntry {
        path: path.to_string(),
        head: Some("deadbeef".to_string()),
        branch: Some("main".to_string()),
        bare: false,
        detached: false,
        locked: None,
        prunable: None,
    }
}

/// A backend with no repository behind it: every read fails.
struct NoRepo;

impl StageOps for NoRepo {
    fn status(&self) -> Result<Vec<FileStatus>, GitError> {
        Err(GitError::Parse("no repository".to_string()))
    }
    fn stage_file(&self, _path: &str) -> Result<(), GitError> {
        Err(GitError::Parse("no repository".to_string()))
    }
    fn unstage_file(&self, _path: &str) -> Result<(), GitError> {
        Err(GitError::Parse("no repository".to_string()))
    }
    fn branch_list(&self) -> Result<Vec<LocalBranch>, GitError> {
        Err(GitError::Parse("branch list unavailable".to_string()))
    }
    fn worktree_list(&self) -> Result<Vec<WorktreeEntry>, GitError> {
        Err(GitError::Parse("worktree list unavailable".to_string()))
    }
}

/// A backend that lists fixed branches and worktrees.
struct Lists {
    branches: Vec<LocalBranch>,
    worktrees: Vec<WorktreeEntry>,
}

impl StageOps for Lists {
    fn status(&self) -> Result<Vec<FileStatus>, GitError> {
        Ok(Vec::new())
    }
    fn stage_file(&self, _path: &str) -> Result<(), GitError> {
        Ok(())
    }
    fn unstage_file(&self, _path: &str) -> Result<(), GitError> {
        Ok(())
    }
    fn branch_list(&self) -> Result<Vec<LocalBranch>, GitError> {
        Ok(self.branches.clone())
    }
    fn worktree_list(&self) -> Result<Vec<WorktreeEntry>, GitError> {
        Ok(self.worktrees.clone())
    }
}

#[test]
fn cursor_starts_on_current_branch() {
    let branches = vec![branch("feature", false, None), branch("main", true, None), branch("other", false, None)];
    let state = SwitcherState::new(branches, vec![], None, 0);
    assert_eq!(state.branch_cursor, 1);
}

#[test]
fn cursor_falls_back_to_top_when_no_branch_is_current() {
    let branches = vec![branch("feature", false, None), branch("other", false, None)];
    let state = SwitcherState::new(branches, vec![], None, 0);
    assert_eq!(state.branch_cursor, 0);
}

#[test]
fn worktree_cursor_starts_on_current_worktree_by_path() {
    let worktrees = vec![worktree("/repo/a"), worktree("/repo/b")];
    let state = SwitcherState::new(vec![], worktrees, Some("/repo/b"), 0);
    assert_eq!(state.worktree_cursor, 1);
}

#[test]
fn worktree_cursor_falls_back_to_top_without_a_repo_root() {
    let worktrees = vec![worktree("/repo/a"), worktree("/repo/b")];
    let state = SwitcherState::new(vec![], worktrees, None, 0);
    assert_eq!(state.worktree_cursor, 0);
}

#[test]
fn switcher_panel_cursor_is_captured_verbatim() {
    let state = SwitcherState::new(vec![], vec![], None, 7);
    assert_eq!(state.panel_cursor, 7);
}

#[test]
fn toggle_tab_switches_between_branches_and_worktrees() {
    let mut state = SwitcherState::new(vec![], vec![], None, 0);
    assert_eq!(state.tab, SwitcherTab::Branches);
    state.toggle_tab();
    assert_eq!(state.tab, SwitcherTab::Worktrees);
    state.toggle_tab();
    assert_eq!(state.tab, SwitcherTab::Branches);
}

#[test]
fn move_down_and_up_clamp_within_the_active_tab() {
    let branches = vec![branch("a", false, None), branch("b", false, None)];
    let mut state = SwitcherState::new(branches, vec![], None, 0);
    state.branch_cursor = 0;
    state.move_down();
    assert_eq!(state.branch_cursor, 1);
    state.move_down(); // clamps at the last
    assert_eq!(state.branch_cursor, 1);
    state.move_up();
    assert_eq!(state.branch_cursor, 0);
    state.move_up(); // clamps at the first
    assert_eq!(state.branch_cursor, 0);
}

#[test]
fn move_on_empty_active_tab_stays_at_zero() {
    let mut state = SwitcherState::new(vec![], vec![], None, 0);
    state.move_down();
    assert_eq!(state.branch_cursor, 0);
    state.move_up();
    assert_eq!(state.branch_cursor, 0);
}

#[test]
fn each_tab_keeps_its_own_cursor_across_a_toggle() {
    let branches = vec![branch("a", false, None), branch("b", false, None)];
    let worktrees = vec![worktree("/repo/a"), worktree("/repo/b")];
    let mut state = SwitcherState::new(branches, worktrees, None, 0);
    state.move_down(); // branch_cursor -> 1
    state.toggle_tab();
    assert_eq!(state.worktree_cursor, 0);
    state.move_down(); // worktree_cursor -> 1
    state.toggle_tab();
    assert_eq!(state.branch_cursor, 1, "branch tab's cursor survived the round trip");
}

#[test]
fn is_current_worktree_true_for_matching_raw_paths() {
    let wt = worktree("/repo/a");
    assert!(is_current_worktree(Some("/repo/a"), &wt));
}

#[test]
fn is_current_worktree_false_for_different_paths() {
    let wt = worktree("/repo/a");
    assert!(!is_current_worktree(Some("/repo/b"), &wt));
}

#[test]
fn is_current_worktree_false_without_a_repo_root() {
    let wt = worktree("/repo/a");
    assert!(!is_current_worktree(None, &wt));
}

#[test]
fn open_switcher_without_backend_sets_footer_message() {
    let mut app = App::new(vec![]);
    app.mode = Mode::Panel { cursor: 0, tab: PanelTab::Changes };
    app.open_switcher::<NoRepo>(None);
    assert!(app.switcher.is_none());
    assert_eq!(app.mode, Mode::Panel { cursor: 0, tab: PanelTab::Changes });
    assert!(app.status_message.is_some());
}

#[test]
fn close_switcher_without_ever_opening_returns_to_panel_at_zero() {
    let mut app = App::new(vec![]);
    app.mode = Mode::Switcher;
    app.close_switcher();
    assert_eq!(app.mode, Mode::Panel { cursor: 0, tab: PanelTab::Changes });
}

#[test]
fn open_switcher_with_failing_reads_reports_the_error() {
    let mut app = App::new(vec![]);
    app.open_switcher(Some(&NoRepo));
    assert!(app.switcher.is_none());
    assert_eq!(app.mode, Mode::Normal);
    assert_eq!(
        app.status_message.as_deref(),
        Some("switcher: could not read git output: branch list unavailable")
    );
}

#[test]
fn open_then_close_switcher_restores_the_panel_cursor_clamped() {
    let ops = Lists {
        branches: vec![branch("main", true, None), branch("topic", false, None)],
        worktrees: vec![worktree("/repo")],
    };
    let mut app = App::new(vec![]);
    app.repo_root = Some("/repo".to_string());
    app.panel_rows = 3;
    app.mode = Mode::Panel { cursor: 5, tab: PanelTab::Changes };
    app.open_switcher(Some(&ops));
    assert_eq!(app.mode, Mode::Switcher);
    let s = app.switcher.as_ref().unwrap();
    assert_eq!((s.branch_cursor, s.worktree_cursor, s.panel_cursor), (0, 0, 5));
    app.switcher_move_down();
    assert_eq!(app.switcher.as_ref().unwrap().branch_cursor, 1);
    app.close_switcher();
    assert!(app.switcher.is_none());
    assert_eq!(app.mode, Mode::Panel { cursor: 2, tab: PanelTab::Changes });
}

#[test]
fn paging_moves_by_half_and_full_viewports_and_clamps() {
    let branches: Vec<LocalBranch> = (0..20).map(|i| branch(&format!("b{i}"), false, None)).collect();
    let mut state = SwitcherState::new(branches, vec![], None, 0);
    state.half_page_down(10);
    assert_eq!(state.branch_cursor, 5);
    state.full_page_down(10);
    assert_eq!(state.branch_cursor, 15);
    state.full_page_down(10);
    assert_eq!(state.branch_cursor, 19);
    state.half_page_up(10);
    assert_eq!(state.branch_cursor, 14);
    state.full_page_up(100);
    assert_eq!(state.branch_cursor, 0);
    state.half_page_down(0); // a zero-height viewport still moves one row
    assert_eq!(state.branch_cursor, 1);
    state.jump_to_bottom();
    assert_eq!(state.branch_cursor, 19);
    state.jump_to_top();
    assert_eq!(state.branch_cursor, 0);
}

#[test]
fn active_labels_follow_the_active_tab() {
    let mut feature = worktree("/repo-feature");
    feature.branch = Some("feature".to_string());
    let mut detached = worktree("/repo-detached");
    detached.branch = None;
    let mut s = SwitcherState::new(
        vec![branch("main", true, None), branch("feature", false, None)],
        vec![feature, detached],
        None,
        0,
    );
    assert_eq!(s.active_labels(), vec!["main".to_string(), "feature".to_string()]);
    s.toggle_tab();
    assert_eq!(
        s.active_labels(),
        vec!["/repo-feature feature".to_string(), "/repo-detached ".to_string()]
    );
}
