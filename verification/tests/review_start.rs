use redquill::app::{App, Mode, ModeOrigin, PanelTab};
use redquill::review_launcher::LauncherTab;
use redquill::review_start::{PrCheckoutNext, PrEntry};
use redquill::stage_ops::PrCheckoutOutcome;

/// An app with the launcher open, opened from the git panel at row 7 of a
/// panel that now has `rows` rows.
fn launcher_from_panel(rows: usize) -> App {
    let mut app = App::new(Vec::new());
    app.panel_rows = rows;
    app.mode = Mode::ReviewLauncher {
        tab: LauncherTab::Branches,
        cursor: 0,
        origin: ModeOrigin::Panel { cursor: 7, tab: PanelTab::History },
    };
    app
}

#[test]
fn a_started_branch_review_closes_into_the_panel_with_its_cursor_clamped() {
    let mut app = launcher_from_panel(3);
    app.finish_branch_review("feature", Ok(()));
    assert_eq!(app.mode, Mode::Panel { cursor: 2, tab: PanelTab::History });
    assert_eq!(app.status_message.as_deref(), Some("reviewing feature"));
}

#[test]
fn a_failed_branch_review_closes_back_to_the_origin_exactly() {
    let mut app = launcher_from_panel(3);
    app.finish_branch_review("feature", Err("worktree add failed".to_string()));
    assert_eq!(app.mode, Mode::Panel { cursor: 7, tab: PanelTab::History });
    assert_eq!(app.status_message.as_deref(), Some("review failed: worktree add failed"));
}

#[test]
fn a_normal_origin_is_restored_verbatim_after_a_start() {
    let mut app = App::new(Vec::new());
    app.mode = Mode::ReviewLauncher { tab: LauncherTab::Commits, cursor: 3, origin: ModeOrigin::Normal };
    app.close_review_launcher_after_start();
    assert_eq!(app.mode, Mode::Normal);
}

#[test]
fn a_ready_checkout_is_entered_fresh() {
    let mut app = launcher_from_panel(3);
    app.pr_checkout_in_flight = true;
    let next = app.finish_pr_checkout(
        PrCheckoutOutcome::Ready { head_sha: "abc".to_string(), moved: true, worktree_path: "/wt".to_string() },
        false,
    );
    assert_eq!(
        next,
        PrCheckoutNext::Enter {
            worktree_path: "/wt".to_string(),
            entry: PrEntry::Fresh { head_sha: "abc".to_string(), moved: true },
        }
    );
    assert!(!app.pr_checkout_in_flight);
    app.finish_pr_review_entry(7, "add widgets", &PrEntry::Fresh { head_sha: "abc".to_string(), moved: true }, false, Ok(2));
    assert_eq!(app.status_message.as_deref(), Some("PR updated \u{2014} 2 accepted file(s) changed"));
    assert!(!app.review_stale);
    assert_eq!(app.mode, Mode::Panel { cursor: 2, tab: PanelTab::History });
}

#[test]
fn an_unmoved_fresh_review_names_the_pull_request() {
    let mut app = launcher_from_panel(10);
    app.finish_pr_review_entry(42, "fix parser", &PrEntry::Fresh { head_sha: "abc".to_string(), moved: false }, false, Ok(0));
    assert_eq!(app.status_message.as_deref(), Some("reviewing #42 fix parser"));
}

#[test]
fn a_failed_fetch_with_a_prior_checkout_enters_it_as_stale() {
    let mut app = launcher_from_panel(10);
    let next = app.finish_pr_checkout(
        PrCheckoutOutcome::Failed { message: "offline".to_string(), stale_worktree: Some("/old".to_string()) },
        false,
    );
    let entry = PrEntry::Stale { message: "offline".to_string() };
    assert_eq!(next, PrCheckoutNext::Enter { worktree_path: "/old".to_string(), entry: entry.clone() });
    app.finish_pr_review_entry(7, "t", &entry, false, Ok(0));
    assert!(app.review_stale);
    assert_eq!(
        app.status_message.as_deref(),
        Some("PR fetch failed (offline) \u{2014} reviewing stale checkout")
    );
}

#[test]
fn a_failed_refresh_inside_the_review_only_marks_it_stale() {
    let mut app = App::new(Vec::new());
    let next = app.finish_pr_checkout(
        PrCheckoutOutcome::Failed { message: "offline".to_string(), stale_worktree: Some("/wt".to_string()) },
        true,
    );
    assert_eq!(next, PrCheckoutNext::Done);
    assert!(app.review_stale);
    assert_eq!(app.status_message.as_deref(), Some("PR fetch failed (offline) \u{2014} checkout may be stale"));
    assert_eq!(app.mode, Mode::Normal);
}

#[test]
fn a_failed_fetch_with_nothing_to_fall_back_to_closes_the_launcher() {
    let mut app = launcher_from_panel(10);
    let next = app.finish_pr_checkout(
        PrCheckoutOutcome::Failed { message: "no such PR".to_string(), stale_worktree: None },
        false,
    );
    assert_eq!(next, PrCheckoutNext::Done);
    assert_eq!(app.status_message.as_deref(), Some("PR fetch failed: no such PR"));
    assert_eq!(app.mode, Mode::Panel { cursor: 7, tab: PanelTab::History });
}

#[test]
fn a_failed_entry_says_why_and_closes_back() {
    let mut app = launcher_from_panel(10);
    app.finish_pr_review_entry(7, "t", &PrEntry::Fresh { head_sha: "a".to_string(), moved: false }, false, Err("not a repo".to_string()));
    assert_eq!(app.status_message.as_deref(), Some("review failed: not a repo"));
    assert_eq!(app.mode, Mode::Panel { cursor: 7, tab: PanelTab::History });
}
