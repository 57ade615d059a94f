use redquill::app::{App, Mode, PanelTab};
use redquill::git::{DiffTarget, FileStatus, GitError, LocalBranch, WorktreeEntry};
use redquill::review_branch::ReviewBranchState;
use redquill::stage_ops::StageOps;

fn branch(name: &str, is_current: bool) -> LocalBranch {
    LocalBranch { name: name.to_string(), is_current, worktree: None }
}

/// A backend that lists fixed local branches.
struct Branches(Vec<LocalBranch>);

impl StageOps for Branches {
    fn status(&self) -> Result<Vec<FileStatus>, GitError> {
        Ok(Vec::new())
    }
    fn stage_file(&self, _path: &str) -> Result<(), GitError> {
        Ok(())
    }
    fn unstage_file(&self, _path: &str) -> Result<(), GitError> {
        Ok(())
    }
    fn branch_list(&self) -> Result<Vec<LocalBranch>, GitError> {
        Ok(self.0.clone())
    }
    fn worktree_list(&self) -> Result<Vec<WorktreeEntry>, GitError> {
        Ok(Vec::new())
    }
}

#[test]
fn move_down_and_up_clamp() {
    let mut state = ReviewBranchState::new(vec![branch("a", false), branch("b", false)], 0);
    state.move_down();
    assert_eq!(state.cursor, 1);
    state.move_down(); // clamps at the last
    assert_eq!(state.cursor, 1);
    state.move_up();
    assert_eq!(state.cursor, 0);
    state.move_up(); // clamps at the first
    assert_eq!(state.cursor, 0);
}

#[test]
fn move_on_empty_list_stays_at_zero() {
    let mut state = ReviewBranchState::new(Vec::new(), 0);
    state.move_down();
    assert_eq!(state.cursor, 0);
    state.move_up();
    assert_eq!(state.cursor, 0);
}

#[test]
fn review_branch_panel_cursor_is_captured_verbatim() {
    let state = ReviewBranchState::new(Vec::new(), 7);
    assert_eq!(state.panel_cursor, 7);
}

#[test]
fn open_without_backend_sets_footer_message() {
    let mut app = App::new(vec![]);
    app.mode = Mode::Panel { cursor: 0, tab: PanelTab::Changes };
    app.open_review_branch_modal::<Branches>(None);
    assert!(app.review_branch_modal.is_none());
    assert_eq!(app.mode, Mode::Panel { cursor: 0, tab: PanelTab::Changes });
    assert!(app.status_message.is_some());
}

#[test]
fn open_while_already_reviewing_degrades_to_a_message_and_leaves_mode_untouched() {
    let mut app = App::new(vec![]);
    app.target = DiffTarget::Review { base: "main".to_string(), branch: "feature".to_string() };
    app.mode = Mode::Panel { cursor: 0, tab: PanelTab::Changes };
    app.open_review_branch_modal::<Branches>(None);
    assert!(app.review_branch_modal.is_none());
    assert_eq!(app.mode, Mode::Panel { cursor: 0, tab: PanelTab::Changes });
    assert!(
        app.status_message.as_deref().is_some_and(|m| m.contains("feature")),
        "message must name the branch already under review: {:?}",
        app.status_message
    );
}

#[test]
fn close_without_ever_opening_returns_to_panel_at_zero() {
    let mut app = App::new(vec![]);
    app.mode = Mode::ReviewBranch;
    app.close_review_branch_modal();
    assert_eq!(app.mode, Mode::Panel { cursor: 0, tab: PanelTab::Changes });
}

#[test]
fn review_branch_confirm_without_a_git_backend_degrades_to_a_message_and_leaves_the_modal_open() {
    let mut app = App::new(vec![]);
    app.mode = Mode::ReviewBranch;
    app.review_branch_modal = Some(ReviewBranchState::new(vec![branch("feature", false)], 0));

    assert_eq!(app.confirm_review_branch::<Branches>(None), None);

    assert_eq!(app.mode, Mode::ReviewBranch, "modal must stay open");
    assert!(app.status_message.is_some());
    assert!(!app.in_review_session());
}

#[test]
fn review_branch_confirm_on_an_empty_branch_list_is_a_no_op() {
    let mut app = App::new(vec![]);
    app.mode = Mode::ReviewBranch;
    app.review_branch_modal = Some(ReviewBranchState::new(Vec::new(), 0));

    assert_eq!(app.confirm_review_branch::<Branches>(None), None);

    assert_eq!(app.mode, Mode::ReviewBranch);
    assert!(app.status_message.is_none());
}

#[test]
fn open_lists_only_branches_not_checked_out_and_close_restores_the_panel_row() {
    let ops = Branches(vec![branch("main", true), branch("topic", false), branch("wip", false)]);
    let mut app = App::new(vec![]);
    app.panel_rows = 10;
    app.mode = Mode::Panel { cursor: 4, tab: PanelTab::History };
    app.last_panel_tab = PanelTab::History;
    app.open_review_branch_modal(Some(&ops));
    assert_eq!(app.mode, Mode::ReviewBranch);
    let names: Vec<&str> =
        app.review_branch_modal.as_ref().unwrap().branches.iter().map(|b| b.name.as_str()).collect();
    assert_eq!(names, vec!["topic", "wip"]);
    app.review_branch_move_down();
    assert_eq!(app.confirm_review_branch(Some(&ops)), Some("wip".to_string()));
    app.close_review_branch_modal();
    assert_eq!(app.mode, Mode::Panel { cursor: 4, tab: PanelTab::History });
}

#[test]
fn already_reviewing_message_is_exact() {
    let mut app = App::new(vec![]);
    app.target = DiffTarget::Review { base: "main".to_string(), branch: "feature".to_string() };
    app.open_review_branch_modal::<Branches>(None);
    assert_eq!(app.status_message.as_deref(), Some("already reviewing feature \u{2014} finish or pause first"));
}

#[test]
fn a_failed_session_start_keeps_the_modal_open_with_the_error() {
    let mut app = App::new(vec![]);
    app.mode = Mode::ReviewBranch;
    app.review_branch_modal = Some(ReviewBranchState::new(vec![branch("feature", false)], 0));
    app.finish_review_branch_start("feature", Err("fatal: no such branch".to_string()));
    assert_eq!(app.mode, Mode::ReviewBranch);
    assert!(app.review_branch_modal.is_some());
    assert_eq!(app.status_message.as_deref(), Some("review failed: fatal: no such branch"));
    assert!(!app.in_review_session());
}

#[test]
fn a_started_session_closes_the_modal_and_names_the_branch() {
    let mut app = App::new(vec![]);
    app.panel_rows = 10;
    app.mode = Mode::ReviewBranch;
    app.review_branch_modal = Some(ReviewBranchState::new(vec![branch("feature", false)], 3));
    app.finish_review_branch_start("feature", Ok(()));
    assert!(app.review_branch_modal.is_none());
    assert_eq!(app.status_message.as_deref(), Some("reviewing feature"));
}
