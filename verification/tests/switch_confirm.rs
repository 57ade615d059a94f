use std::cell::RefCell;

use redquill::app::{App, Mode, PanelTab};
use redquill::command_log::{branch_switch_log_entry, CommandLogEntry};
use redquill::git::{FileStatus, GitError, LocalBranch, WorktreeEntry};
use redquill::stage_ops::StageOps;
use redquill::switcher::{worktree_badge, worktree_extra_badges, SwitchStep, SwitcherState};

fn branch(name: &str, is_current: bool) -> LocalBranch {
    LocalBranch { name: name.to_string(), is_current, worktree: None }
}

fn worktree(path: &str, bare: bool) -> WorktreeEntry {
    WorktreeEntry {
        path: path.to_string(),
        head: None,
        branch: None,
        bare,
        detached: false,
        locked: None,
        prunable: None,
    }
}

struct Switcher {
    fail: Option<GitError>,
    calls: RefCell<Vec<String>>,
}

impl StageOps for Switcher {
    fn status(&self) -> Result<Vec<FileStatus>, GitError> {
        Ok(Vec::new())
    }
    fn stage_file(&self, _path: &str) -> Result<(), GitError> {
        Ok(())
    }
    fn unstage_file(&self, _path: &str) -> Result<(), GitError> {
        Ok(())
    }
    fn switch_branch(&self, name: &str) -> Result<(), GitError> {
        self.calls.borrow_mut().push(name.to_string());
        match &self.fail {
            Some(e) => Err(e.clone()),
            None => Ok(()),
        }
    }
}

fn ops(fail: Option<GitError>) -> Switcher {
    Switcher { fail, calls: RefCell::new(Vec::new()) }
}

fn no_ops() -> Option<&'static Switcher> {
    None
}

/// An app in the git panel with the switcher open over `branches` and
/// `worktrees`, its cursor on row `branch_cursor` of the Branches tab.
fn app_with_switcher(branches: Vec<LocalBranch>, worktrees: Vec<WorktreeEntry>) -> App {
    let mut app = App::new(Vec::new());
    app.repo_root = Some("/repo".to_string());
    app.panel_rows = 10;
    app.mode = Mode::Switcher;
    app.switcher = Some(SwitcherState::new(branches, worktrees, Some("/repo"), 4));
    app
}

#[test]
fn switching_to_another_branch_logs_it_closes_the_modal_and_asks_for_a_refresh() {
    let git = ops(None);
    let mut app = app_with_switcher(vec![branch("main", true), branch("feature", false)], vec![]);
    app.switcher.as_mut().unwrap().branch_cursor = 1;
    assert_eq!(app.switcher_confirm(Some(&git)), SwitchStep::Refresh);
    assert_eq!(*git.calls.borrow(), vec!["feature".to_string()]);
    assert!(app.switcher.is_none());
    assert_eq!(app.mode, Mode::Panel { cursor: 4, tab: PanelTab::Changes });
    assert_eq!(app.status_message.as_deref(), Some("switched to feature (annotations kept)"));
    assert_eq!(
        app.command_log,
        vec![CommandLogEntry {
            command_line: "git switch -- feature".to_string(),
            success: true,
            code: Some(0),
            stdout: String::new(),
            stderr: String::new(),
        }]
    );
}

#[test]
fn a_failed_switch_keeps_the_modal_open_and_points_at_the_log() {
    let git = ops(Some(GitError::Command {
        command: "switch -- feature".to_string(),
        code: "128".to_string(),
        stderr: "error: your local changes would be overwritten".to_string(),
    }));
    let mut app = app_with_switcher(vec![branch("main", true), branch("feature", false)], vec![]);
    app.switcher.as_mut().unwrap().branch_cursor = 1;
    assert_eq!(app.switcher_confirm(Some(&git)), SwitchStep::Done);
    assert!(app.switcher.is_some());
    assert_eq!(app.mode, Mode::Switcher);
    assert_eq!(app.status_message.as_deref(), Some("switch failed \u{2014} see command log (@)"));
    assert_eq!(app.command_log.len(), 1);
    assert_eq!(app.command_log[0].code, Some(128));
    assert!(!app.command_log[0].success);
    assert_eq!(app.command_log[0].stderr, "error: your local changes would be overwritten");
}

#[test]
fn the_current_branch_is_refused_without_running_git() {
    let git = ops(None);
    let mut app = app_with_switcher(vec![branch("main", true)], vec![]);
    assert_eq!(app.switcher_confirm(Some(&git)), SwitchStep::Done);
    assert!(git.calls.borrow().is_empty());
    assert_eq!(app.status_message.as_deref(), Some("already on main"));
    assert!(app.switcher.is_some());
    assert!(app.command_log.is_empty());
}

#[test]
fn switching_without_a_backend_says_so() {
    let mut app = app_with_switcher(vec![branch("main", true), branch("feature", false)], vec![]);
    app.switcher.as_mut().unwrap().branch_cursor = 1;
    assert_eq!(app.switcher_confirm(no_ops()), SwitchStep::Done);
    assert_eq!(app.status_message.as_deref(), Some("switcher unavailable (no git backend)"));
}

#[test]
fn an_empty_branch_list_confirms_nothing() {
    let git = ops(None);
    let mut app = app_with_switcher(vec![], vec![]);
    assert_eq!(app.switcher_confirm(Some(&git)), SwitchStep::Done);
    assert_eq!(app.status_message, None);
}

#[test]
fn the_worktrees_tab_asks_to_reroot_onto_another_worktree() {
    let mut app = app_with_switcher(vec![], vec![worktree("/repo", false), worktree("/repo-b", false)]);
    app.switcher.as_mut().unwrap().toggle_tab();
    app.switcher.as_mut().unwrap().worktree_cursor = 1;
    let git = ops(None);
    assert_eq!(app.switcher_confirm(Some(&git)), SwitchStep::Reroot("/repo-b".to_string()));
    app.finish_worktree_switch(Ok(()));
    assert!(app.switcher.is_none());
    assert_eq!(app.status_message.as_deref(), Some("re-rooted (annotations kept)"));
}

#[test]
fn a_failed_reroot_closes_the_modal_with_the_reason() {
    let mut app = app_with_switcher(vec![], vec![worktree("/repo-b", false)]);
    app.finish_worktree_switch(Err("not a git repository".to_string()));
    assert!(app.switcher.is_none());
    assert_eq!(app.status_message.as_deref(), Some("re-root failed: not a git repository"));
}

#[test]
fn bare_and_current_worktrees_are_refused() {
    let git = ops(None);
    let mut app = app_with_switcher(vec![], vec![worktree("/repo", false), worktree("/bare", true)]);
    app.switcher.as_mut().unwrap().toggle_tab();
    app.switcher.as_mut().unwrap().worktree_cursor = 0;
    assert_eq!(app.switcher_confirm(Some(&git)), SwitchStep::Done);
    assert_eq!(app.status_message.as_deref(), Some("already in this worktree"));
    app.switcher.as_mut().unwrap().worktree_cursor = 1;
    assert_eq!(app.switcher_confirm(Some(&git)), SwitchStep::Done);
    assert_eq!(app.status_message.as_deref(), Some("cannot re-root onto a bare worktree"));
    assert!(app.switcher.is_some());
}

#[test]
fn a_log_entry_for_an_error_that_never_ran_git_has_no_code() {
    let e = GitError::Parse("git not found".to_string());
    let entry = branch_switch_log_entry("x", &Err(e));
    assert_eq!(entry.code, None);
    assert_eq!(entry.stderr, "could not read git output: git not found");
    assert_eq!(entry.command_line, "git switch -- x");
}

#[test]
fn a_log_entry_with_an_unreadable_exit_code_keeps_none() {
    let e = GitError::Command { command: "switch".to_string(), code: "signal".to_string(), stderr: "killed".to_string() };
    let entry = branch_switch_log_entry("x", &Err(e));
    assert_eq!(entry.code, None);
    assert_eq!(entry.stderr, "killed");
    let e = GitError::Command { command: "switch".to_string(), code: "-1".to_string(), stderr: String::new() };
    assert_eq!(branch_switch_log_entry("x", &Err(e)).code, Some(-1));
}

fn wt_with(branch: Option<&str>, head: Option<&str>, detached: bool) -> WorktreeEntry {
    WorktreeEntry {
        path: "/repo/wt".to_string(),
        head: head.map(str::to_string),
        branch: branch.map(str::to_string),
        bare: false,
        detached,
        locked: None,
        prunable: None,
    }
}

#[test]
fn the_worktree_badge_names_the_branch_or_a_short_detached_head() {
    assert_eq!(worktree_badge(&wt_with(Some("main"), Some("deadbeef00"), false)), "main");
    assert_eq!(worktree_badge(&wt_with(None, Some("deadbeef00"), true)), "detached @ deadbee");
    assert_eq!(worktree_badge(&wt_with(None, Some("abc"), true)), "detached @ abc");
    assert_eq!(worktree_badge(&wt_with(None, None, true)), "detached @ ?");
    assert_eq!(worktree_badge(&wt_with(None, None, false)), "unknown");
    assert_eq!(worktree_badge(&worktree("/b", true)), "bare");
}

#[test]
fn extra_badges_list_locked_then_prunable_with_their_reasons() {
    let mut wt = wt_with(Some("main"), None, false);
    assert!(worktree_extra_badges(&wt).is_empty());
    wt.locked = Some(String::new());
    wt.prunable = Some("gitdir file points to non-existent location".to_string());
    assert_eq!(
        worktree_extra_badges(&wt),
        vec!["locked".to_string(), "prunable: gitdir file points to non-existent location".to_string()]
    );
}
