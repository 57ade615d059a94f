use redquill::app::{App, Mode, ModeOrigin, PanelTab};
use redquill::forge::PullRequest;
use redquill::git::{CommitLogEntry, CommitLogRange, DiffTarget, FileStatus, GitError, LocalBranch};
use redquill::review_launcher::{LauncherLoad, LauncherStart, LauncherTab};
use redquill::stage_ops::{PrFetchOutcome, StageOps};

/// No git backend at all.
struct NoOps;

impl StageOps for NoOps {
    fn status(&self) -> Result<Vec<FileStatus>, GitError> {
        Ok(Vec::new())
    }
    fn stage_file(&self, _path: &str) -> Result<(), GitError> {
        Ok(())
    }
    fn unstage_file(&self, _path: &str) -> Result<(), GitError> {
        Ok(())
    }
}

fn none() -> Option<&'static NoOps> {
    None
}

/// A fixed branch list; every worktree-mutating read panics.
struct BranchListOps {
    branches: Vec<LocalBranch>,
}

impl StageOps for BranchListOps {
    fn status(&self) -> Result<Vec<FileStatus>, GitError> {
        Ok(Vec::new())
    }
    fn stage_file(&self, _path: &str) -> Result<(), GitError> {
        panic!("stage_file must never be called from the launcher's Branches tab")
    }
    fn unstage_file(&self, _path: &str) -> Result<(), GitError> {
        panic!("unstage_file must never be called from the launcher's Branches tab")
    }
    fn branch_list(&self) -> Result<Vec<LocalBranch>, GitError> {
        Ok(self.branches.clone())
    }
    fn default_base(&self) -> Result<String, GitError> {
        panic!("default_base must never be called while the in-session guard should block it")
    }
}

/// A fixed ahead-of-base commit list read inline.
struct SyncCommitRangeOps {
    base: &'static str,
    commits: Vec<CommitLogEntry>,
}

impl StageOps for SyncCommitRangeOps {
    fn status(&self) -> Result<Vec<FileStatus>, GitError> {
        Ok(Vec::new())
    }
    fn stage_file(&self, _path: &str) -> Result<(), GitError> {
        Ok(())
    }
    fn unstage_file(&self, _path: &str) -> Result<(), GitError> {
        Ok(())
    }
    fn default_base(&self) -> Result<String, GitError> {
        Ok(self.base.to_string())
    }
    fn commit_log_range(&self, _range: &CommitLogRange) -> Result<Vec<CommitLogEntry>, GitError> {
        Ok(self.commits.clone())
    }
}

/// A fixed pull-request listing outcome read inline.
struct SyncPrListOps {
    outcome: PrFetchOutcome,
}

impl StageOps for SyncPrListOps {
    fn status(&self) -> Result<Vec<FileStatus>, GitError> {
        Ok(Vec::new())
    }
    fn stage_file(&self, _path: &str) -> Result<(), GitError> {
        Ok(())
    }
    fn unstage_file(&self, _path: &str) -> Result<(), GitError> {
        Ok(())
    }
    fn list_open_prs(&self) -> PrFetchOutcome {
        self.outcome.clone()
    }
}

/// A backend whose slow reads run in the background.
struct BackgroundOps;

impl StageOps for BackgroundOps {
    fn status(&self) -> Result<Vec<FileStatus>, GitError> {
        Ok(Vec::new())
    }
    fn stage_file(&self, _path: &str) -> Result<(), GitError> {
        Ok(())
    }
    fn unstage_file(&self, _path: &str) -> Result<(), GitError> {
        Ok(())
    }
    fn default_base(&self) -> Result<String, GitError> {
        Ok("main".to_string())
    }
    fn reads_off_thread(&self) -> bool {
        true
    }
}

fn app() -> App {
    App::new(vec![])
}

fn branch(name: &str) -> LocalBranch {
    LocalBranch { name: name.to_string(), is_current: false, worktree: None }
}

fn commit(sha: &str, subject: &str) -> CommitLogEntry {
    CommitLogEntry {
        sha: sha.to_string(),
        short_sha: sha.to_string(),
        subject: subject.to_string(),
        author_name: "Dev".to_string(),
        timestamp: 1_700_000_000,
    }
}

fn pr(number: u64, title: &str) -> PullRequest {
    PullRequest {
        number,
        title: title.to_string(),
        author: "octocat".to_string(),
        head_ref: "feature".to_string(),
        base_ref: "main".to_string(),
        is_draft: false,
        updated_at: "2026-07-19T00:00:00Z".to_string(),
    }
}

fn launcher(tab: LauncherTab, cursor: usize) -> Mode {
    Mode::ReviewLauncher { tab, cursor, origin: ModeOrigin::Normal }
}

fn review_target() -> DiffTarget {
    DiffTarget::Review { base: "main".to_string(), branch: "feature".to_string() }
}

#[test]
fn toggle_cycles_through_every_tab_and_wraps() {
    assert_eq!(LauncherTab::Branches.toggle(), LauncherTab::Commits);
    assert_eq!(LauncherTab::Commits.toggle(), LauncherTab::PullRequests);
    assert_eq!(LauncherTab::PullRequests.toggle(), LauncherTab::Branches);
}

#[test]
fn default_tab_is_branches() {
    assert_eq!(LauncherTab::default(), LauncherTab::Branches);
}

#[test]
fn open_from_normal_lands_on_branches_and_close_restores_normal() {
    let mut app = app();
    assert_eq!(app.mode, Mode::Normal);
    app.open_review_launcher(none());
    assert_eq!(app.mode, launcher(LauncherTab::Branches, 0));
    app.close_review_launcher();
    assert_eq!(app.mode, Mode::Normal);
}

#[test]
fn open_from_visual_and_close_restores_the_anchor() {
    let mut app = app();
    app.mode = Mode::Visual { anchor: 3 };
    app.open_review_launcher(none());
    assert_eq!(
        app.mode,
        Mode::ReviewLauncher { tab: LauncherTab::Branches, cursor: 0, origin: ModeOrigin::Visual { anchor: 3 } }
    );
    app.close_review_launcher();
    assert_eq!(app.mode, Mode::Visual { anchor: 3 });
}

#[test]
fn open_from_panel_and_close_restores_the_cursor_and_tab() {
    let mut app = app();
    app.mode = Mode::Panel { cursor: 2, tab: PanelTab::History };
    app.open_review_launcher(none());
    assert_eq!(
        app.mode,
        Mode::ReviewLauncher {
            tab: LauncherTab::Branches,
            cursor: 0,
            origin: ModeOrigin::Panel { cursor: 2, tab: PanelTab::History },
        }
    );
    app.close_review_launcher();
    assert_eq!(app.mode, Mode::Panel { cursor: 2, tab: PanelTab::History });
}

#[test]
fn close_while_not_open_is_a_no_op() {
    let mut app = app();
    assert_eq!(app.mode, Mode::Normal);
    app.close_review_launcher();
    assert_eq!(app.mode, Mode::Normal);
}

#[test]
fn switch_tab_toggles_and_resets_cursor() {
    let mut app = app();
    app.mode = launcher(LauncherTab::Branches, 0);
    app.review_launcher_switch_tab(none());
    assert_eq!(app.mode, launcher(LauncherTab::Commits, 0));
}

#[test]
fn tab_memory_survives_close_and_reopen() {
    let mut app = app();
    assert_eq!(app.last_launcher_tab, LauncherTab::Branches);
    app.open_review_launcher(none());
    app.review_launcher_switch_tab(none());
    assert_eq!(app.last_launcher_tab, LauncherTab::Commits);
    app.close_review_launcher();
    app.open_review_launcher(none());
    assert_eq!(app.mode, launcher(LauncherTab::Commits, 0), "reopening must land back on the last-used tab");
}

#[test]
fn switch_tab_is_a_no_op_outside_the_launcher() {
    let mut app = app();
    assert_eq!(app.mode, Mode::Normal);
    app.review_launcher_switch_tab(none());
    assert_eq!(app.mode, Mode::Normal);
}

#[test]
fn move_down_and_up_stay_at_zero_with_no_list_data_yet() {
    let mut app = app();
    app.open_review_launcher(none());
    app.review_launcher_move_down();
    assert_eq!(app.mode, launcher(LauncherTab::Branches, 0));
    app.review_launcher_move_up();
    assert_eq!(app.mode, launcher(LauncherTab::Branches, 0));
}

#[test]
fn review_launcher_confirm_on_an_empty_branch_list_is_a_no_op() {
    let mut app = app();
    app.open_review_launcher(none());
    assert_eq!(app.review_launcher_confirm(none()), None);
    assert!(matches!(app.mode, Mode::ReviewLauncher { .. }));
    assert!(app.status_message.is_none());
}

#[test]
fn review_launcher_confirm_without_a_git_backend_degrades_to_a_message_and_leaves_the_modal_open() {
    let mut app = app();
    app.mode = launcher(LauncherTab::Branches, 0);
    app.launcher_branches = vec![branch("feature")];
    assert_eq!(app.review_launcher_confirm(none()), None);
    assert!(matches!(app.mode, Mode::ReviewLauncher { .. }));
    assert!(
        app.status_message.as_deref().is_some_and(|m| m.contains("no git backend")),
        "got {:?}",
        app.status_message
    );
}

#[test]
fn opening_the_launcher_populates_the_branches_tab() {
    let ops = BranchListOps { branches: vec![branch("alpha"), branch("zulu")] };
    let mut app = app();
    app.open_review_launcher(Some(&ops));
    assert_eq!(app.launcher_branches.iter().map(|b| b.name.as_str()).collect::<Vec<_>>(), vec!["alpha", "zulu"]);
}

#[test]
fn switching_onto_the_branches_tab_reloads_the_list() {
    let ops = BranchListOps { branches: vec![branch("alpha")] };
    let mut app = app();
    app.mode = launcher(LauncherTab::PullRequests, 0);
    app.last_launcher_tab = LauncherTab::PullRequests;
    assert!(app.launcher_branches.is_empty(), "not loaded yet");
    app.review_launcher_switch_tab(Some(&ops));
    assert_eq!(app.launcher_branches.iter().map(|b| b.name.as_str()).collect::<Vec<_>>(), vec!["alpha"]);
}

#[test]
fn row_count_reflects_the_branch_list_on_the_branches_tab() {
    let ops = BranchListOps { branches: vec![branch("alpha"), branch("zulu")] };
    let mut app = app();
    app.open_review_launcher(Some(&ops));
    app.review_launcher_move_down();
    assert_eq!(app.mode, launcher(LauncherTab::Branches, 1), "cursor must be able to reach the second real branch row");
    app.review_launcher_move_down(); // clamps at the last
    assert_eq!(app.mode, launcher(LauncherTab::Branches, 1));
}

#[test]
fn confirm_during_an_active_review_session_emits_the_hint_and_mutates_nothing() {
    let ops = BranchListOps { branches: vec![branch("alpha")] };
    let mut app = app();
    app.open_review_launcher(Some(&ops));
    app.target = review_target();
    assert_eq!(app.review_launcher_confirm(Some(&ops)), None);
    assert!(
        matches!(app.mode, Mode::ReviewLauncher { tab: LauncherTab::Branches, .. }),
        "the launcher stays open and on the Branches tab, got {:?}",
        app.mode
    );
    assert!(
        app.status_message.as_deref().is_some_and(|m| m.contains("feature") && m.contains('q')),
        "the hint must name the branch under review and point at q, got {:?}",
        app.status_message
    );
}

#[test]
fn launcher_commits_is_empty_and_not_loading_before_anything_is_requested() {
    let app = app();
    assert!(app.launcher_commits.is_empty());
    assert!(!app.launcher_commits_loading());
}

#[test]
fn ensure_launcher_commits_loaded_applies_synchronously_when_no_async_fetcher() {
    let ops = SyncCommitRangeOps { base: "main", commits: vec![commit("a", "one"), commit("b", "two")] };
    let mut app = app();
    assert_eq!(app.ensure_launcher_commits_loaded(Some(&ops)), None);
    assert_eq!(app.launcher_commits.len(), 2);
    assert!(!app.launcher_commits_loading());
    assert!(app.launcher_commits_in_flight.is_none());
}

#[test]
fn no_backend_degrades_to_loaded_and_empty_rather_than_a_stuck_placeholder() {
    let mut app = app();
    app.ensure_launcher_commits_loaded(none());
    assert!(app.launcher_commits.is_empty());
    assert!(!app.launcher_commits_loading());
}

#[test]
fn an_unresolvable_base_degrades_to_loaded_and_empty() {
    let mut app = app();
    // `default_base` keeps the trait's own default: an error.
    app.ensure_launcher_commits_loaded(Some(&NoOps));
    assert!(app.launcher_commits.is_empty());
    assert!(app.launcher_commits_loaded);
    assert!(!app.launcher_commits_loading());
}

#[test]
fn launcher_commits_loading_is_true_while_a_fetch_is_in_flight_and_false_after_it_lands() {
    let mut app = app();
    let range = app.ensure_launcher_commits_loaded(Some(&BackgroundOps)).expect("a background read");
    assert_eq!((range.base.as_str(), range.head.as_str()), ("main", "HEAD"));
    assert!(app.launcher_commits_loading(), "placeholder must show while the fetch is in flight");
    let generation = app.launcher_commits_in_flight.unwrap();
    app.finish_launcher_commits(generation, Some(vec![commit("a", "one")]));
    assert!(app.launcher_commits_in_flight.is_none(), "fetch must have completed");
    assert_eq!(app.launcher_commits.len(), 1);
    assert!(!app.launcher_commits_loading());
}

#[test]
fn stale_generation_launcher_commits_result_is_dropped_not_applied() {
    let mut app = app();
    app.ensure_launcher_commits_loaded(Some(&BackgroundOps));
    let generation = app.launcher_commits_in_flight.unwrap();
    // Something bumps the generation before this fetch lands.
    app.launcher_commits_generation = app.launcher_commits_generation.wrapping_add(1);
    app.finish_launcher_commits(generation, Some(vec![commit("stale", "should never appear")]));
    assert!(app.launcher_commits_in_flight.is_none(), "stale fetch was consumed");
    assert!(app.launcher_commits.is_empty(), "a stale-generation result must never be applied");
}

#[test]
fn request_launcher_commits_is_single_flight() {
    let mut app = app();
    app.ensure_launcher_commits_loaded(Some(&BackgroundOps));
    let in_flight = app.launcher_commits_in_flight;
    assert!(in_flight.is_some());
    let ops = SyncCommitRangeOps { base: "main", commits: vec![commit("b", "two")] };
    assert_eq!(app.ensure_launcher_commits_loaded(Some(&ops)), None);
    // Still the original in-flight read; the synchronous fake's list was
    // never applied (a second fetch never started).
    assert_eq!(app.launcher_commits_in_flight, in_flight);
    assert!(app.launcher_commits.is_empty());
}

#[test]
fn toggle_all_commits_switches_between_ahead_of_base_and_the_full_log() {
    let ops = SyncCommitRangeOps { base: "main", commits: vec![commit("a", "ahead one")] };
    let mut app = app();
    app.history = vec![commit("h1", "history one"), commit("h2", "history two")];
    app.mode = launcher(LauncherTab::Commits, 0);
    app.ensure_launcher_commits_loaded(Some(&ops));

    assert!(!app.launcher_all_commits);
    assert_eq!(app.launcher_commits_rows().iter().map(|c| c.subject.as_str()).collect::<Vec<_>>(), vec!["ahead one"]);

    app.review_launcher_toggle_all_commits(Some(&ops));
    assert!(app.launcher_all_commits);
    assert_eq!(
        app.launcher_commits_rows().iter().map(|c| c.subject.as_str()).collect::<Vec<_>>(),
        vec!["history one", "history two"]
    );

    app.review_launcher_toggle_all_commits(Some(&ops));
    assert!(!app.launcher_all_commits);
    assert_eq!(app.launcher_commits_rows().iter().map(|c| c.subject.as_str()).collect::<Vec<_>>(), vec!["ahead one"]);
}

#[test]
fn toggle_all_commits_resets_the_cursor() {
    let ops = SyncCommitRangeOps { base: "main", commits: vec![commit("a", "one"), commit("b", "two")] };
    let mut app = app();
    app.mode = launcher(LauncherTab::Commits, 1);
    app.review_launcher_toggle_all_commits(Some(&ops));
    assert!(matches!(app.mode, Mode::ReviewLauncher { cursor: 0, .. }));
}

#[test]
fn toggle_state_survives_close_and_reopen() {
    let ops = SyncCommitRangeOps { base: "main", commits: Vec::new() };
    let mut app = app();
    app.open_review_launcher(Some(&ops));
    app.review_launcher_switch_tab(Some(&ops)); // Branches -> Commits
    app.review_launcher_toggle_all_commits(Some(&ops));
    assert!(app.launcher_all_commits);

    app.close_review_launcher();
    app.open_review_launcher(Some(&ops));
    assert_eq!(app.mode, launcher(LauncherTab::Commits, 0));
    assert!(app.launcher_all_commits, "the toggle must survive close/reopen for the process lifetime");
}

#[test]
fn confirm_on_commits_tab_opens_the_commit_view() {
    let mut app = app();
    app.launcher_commits = vec![commit("deadbeef", "a commit")];
    app.mode = launcher(LauncherTab::Commits, 0);
    assert_eq!(app.review_launcher_confirm(none()), None);
    assert_eq!(app.mode, Mode::Normal);
    assert!(matches!(&app.target, DiffTarget::Commit(sha) if sha == "deadbeef"), "got {:?}", app.target);
}

#[test]
fn confirm_on_commits_tab_with_an_empty_list_is_a_no_op() {
    let mut app = app();
    app.mode = launcher(LauncherTab::Commits, 0);
    app.review_launcher_confirm(none());
    assert!(matches!(app.mode, Mode::ReviewLauncher { .. }));
}

#[test]
fn half_and_full_page_motions_step_and_clamp_on_the_branches_tab() {
    let ops = BranchListOps { branches: vec![branch("alpha"), branch("beta"), branch("gamma")] };
    let mut app = app();
    app.open_review_launcher(Some(&ops));
    assert_eq!(app.launcher_branches.len(), 3, "sanity: real branches loaded");

    app.review_launcher_half_page_down();
    app.review_launcher_full_page_down();
    assert_eq!(app.mode, launcher(LauncherTab::Branches, 2), "half then full page down must clamp at the last of 3 branches");

    app.review_launcher_half_page_up();
    assert_eq!(app.mode, launcher(LauncherTab::Branches, 0), "half page up must clamp at the first row");

    app.review_launcher_jump_to_bottom();
    assert_eq!(app.mode, launcher(LauncherTab::Branches, 2));
    app.review_launcher_jump_to_top();
    assert_eq!(app.mode, launcher(LauncherTab::Branches, 0));
}

#[test]
fn prefetch_does_not_fire_against_the_single_shot_ahead_of_base_source() {
    let ops = SyncCommitRangeOps { base: "main", commits: (0..5).map(|i| commit(&format!("c{i}"), "s")).collect() };
    let mut app = app();
    app.ensure_launcher_commits_loaded(Some(&ops));
    assert_eq!(app.launcher_commits.len(), 5);
    app.mode = launcher(LauncherTab::Commits, 0);
    app.review_launcher_jump_to_bottom();
    assert_eq!(app.mode, launcher(LauncherTab::Commits, 4));
    assert!(app.history.is_empty(), "history must stay untouched — nothing to prefetch on the ahead-of-base source");
}

#[test]
fn launcher_prs_rows_is_empty_before_anything_is_requested() {
    let app = app();
    assert!(app.launcher_prs_rows().is_empty());
    assert!(!app.launcher_prs_loading());
}

#[test]
fn ensure_launcher_prs_loaded_applies_synchronously_when_no_async_fetcher() {
    let ops = SyncPrListOps {
        outcome: PrFetchOutcome::Loaded { repo_label: "org/repo".to_string(), prs: vec![pr(1, "one"), pr(2, "two")] },
    };
    let mut app = app();
    assert!(!app.ensure_launcher_prs_loaded(Some(&ops)));
    assert_eq!(app.launcher_prs_rows().len(), 2);
    assert!(!app.launcher_prs_loading());
    assert!(app.launcher_prs_in_flight.is_none());
}

#[test]
fn no_backend_degrades_to_no_forge_remote_rather_than_a_stuck_placeholder() {
    let mut app = app();
    app.ensure_launcher_prs_loaded(none());
    assert_eq!(app.launcher_prs, Some(PrFetchOutcome::NoForgeRemote));
    assert!(!app.launcher_prs_loading());
}

#[test]
fn a_degraded_outcome_is_not_sticky_leaving_and_returning_retries() {
    let mut app = app();
    app.ensure_launcher_prs_loaded(Some(&SyncPrListOps { outcome: PrFetchOutcome::ListFailed { message: "boom".to_string() } }));
    assert_eq!(app.launcher_prs, Some(PrFetchOutcome::ListFailed { message: "boom".to_string() }));
    let fixed = SyncPrListOps {
        outcome: PrFetchOutcome::Loaded { repo_label: "org/repo".to_string(), prs: vec![pr(1, "one")] },
    };
    app.ensure_launcher_prs_loaded(Some(&fixed));
    assert_eq!(app.launcher_prs_rows().len(), 1, "the retry must have run");
}

#[test]
fn a_loaded_outcome_is_sticky_a_second_ensure_call_never_refetches() {
    let mut app = app();
    app.ensure_launcher_prs_loaded(Some(&SyncPrListOps {
        outcome: PrFetchOutcome::Loaded { repo_label: "org/repo".to_string(), prs: vec![pr(1, "one")] },
    }));
    assert_eq!(app.launcher_prs_rows().len(), 1);
    app.ensure_launcher_prs_loaded(Some(&SyncPrListOps {
        outcome: PrFetchOutcome::Loaded { repo_label: "org/repo".to_string(), prs: vec![pr(1, "one"), pr(2, "two")] },
    }));
    assert_eq!(app.launcher_prs_rows().len(), 1, "a successful load must be sticky");
}

#[test]
fn launcher_prs_loading_is_true_while_a_fetch_is_in_flight_and_false_after_it_lands() {
    let mut app = app();
    assert!(app.ensure_launcher_prs_loaded(Some(&BackgroundOps)), "a background listing starts");
    assert!(app.launcher_prs_loading(), "placeholder must show while the fetch is in flight");
    let generation = app.launcher_prs_in_flight.unwrap();
    app.finish_launcher_prs(
        generation,
        Some(PrFetchOutcome::Loaded { repo_label: "org/repo".to_string(), prs: vec![pr(1, "one")] }),
    );
    assert!(app.launcher_prs_in_flight.is_none(), "fetch must complete");
    assert_eq!(app.launcher_prs_rows().len(), 1);
    assert!(!app.launcher_prs_loading());
}

#[test]
fn stale_generation_pr_result_is_dropped_not_applied() {
    let mut app = app();
    app.ensure_launcher_prs_loaded(Some(&BackgroundOps));
    let generation = app.launcher_prs_in_flight.unwrap();
    app.launcher_prs_generation = app.launcher_prs_generation.wrapping_add(1);
    app.finish_launcher_prs(
        generation,
        Some(PrFetchOutcome::Loaded { repo_label: "org/repo".to_string(), prs: vec![pr(1, "should never appear")] }),
    );
    assert!(app.launcher_prs_in_flight.is_none(), "stale fetch drained");
    assert!(app.launcher_prs.is_none(), "a stale-generation result must never be applied");
}

#[test]
fn request_launcher_prs_is_single_flight() {
    let mut app = app();
    app.ensure_launcher_prs_loaded(Some(&BackgroundOps));
    let in_flight = app.launcher_prs_in_flight;
    assert!(!app.ensure_launcher_prs_loaded(Some(&SyncPrListOps {
        outcome: PrFetchOutcome::Loaded { repo_label: "org/repo".to_string(), prs: vec![pr(2, "two")] },
    })));
    assert_eq!(app.launcher_prs_in_flight, in_flight);
    assert!(app.launcher_prs.is_none());
}

#[test]
fn a_listing_task_that_died_becomes_a_failed_listing() {
    let mut app = app();
    app.ensure_launcher_prs_loaded(Some(&BackgroundOps));
    let generation = app.launcher_prs_in_flight.unwrap();
    app.finish_launcher_prs(generation, None);
    assert_eq!(
        app.launcher_prs,
        Some(PrFetchOutcome::ListFailed { message: "background PR fetch task panicked".to_string() })
    );
}

#[test]
fn confirm_on_prs_tab_during_a_review_session_emits_the_hint_and_starts_nothing() {
    let ops = SyncPrListOps {
        outcome: PrFetchOutcome::Loaded { repo_label: "org/repo".to_string(), prs: vec![pr(7, "add widgets")] },
    };
    let mut app = app();
    app.mode = launcher(LauncherTab::PullRequests, 0);
    app.ensure_launcher_prs_loaded(Some(&ops));
    app.target = review_target();
    assert_eq!(app.review_launcher_confirm(Some(&ops)), None, "no checkout may start");
    assert!(!app.pr_checkout_in_flight);
    assert!(
        app.status_message.as_deref().is_some_and(|m| m.contains("feature") && m.contains('q')),
        "got {:?}",
        app.status_message
    );
}

#[test]
fn confirm_on_prs_tab_with_an_empty_list_is_a_no_op() {
    let mut app = app();
    app.mode = launcher(LauncherTab::PullRequests, 0);
    assert_eq!(app.review_launcher_confirm(none()), None);
    assert!(matches!(app.mode, Mode::ReviewLauncher { .. }));
    assert!(app.status_message.is_none());
}

#[test]
fn confirm_on_prs_tab_asks_for_the_checkout_of_the_row() {
    let ops = SyncPrListOps {
        outcome: PrFetchOutcome::Loaded { repo_label: "org/repo".to_string(), prs: vec![pr(7, "add widgets")] },
    };
    let mut app = app();
    app.mode = launcher(LauncherTab::PullRequests, 0);
    app.ensure_launcher_prs_loaded(Some(&ops));
    assert_eq!(
        app.review_launcher_confirm(Some(&ops)),
        Some(LauncherStart::Pr { number: 7, base_ref: "main".to_string(), title: "add widgets".to_string() })
    );
    assert_eq!(app.status_message.as_deref(), Some("checking out #7 \u{2026}"));
}

#[test]
fn switching_onto_the_prs_tab_triggers_a_load() {
    let ops = SyncPrListOps {
        outcome: PrFetchOutcome::Loaded { repo_label: "org/repo".to_string(), prs: vec![pr(1, "one")] },
    };
    let mut app = app();
    app.mode = launcher(LauncherTab::Commits, 0);
    app.last_launcher_tab = LauncherTab::Commits;
    assert!(app.launcher_prs.is_none(), "not loaded yet");
    assert_eq!(app.review_launcher_switch_tab(Some(&ops)), LauncherLoad::Nothing);
    assert!(matches!(app.mode, Mode::ReviewLauncher { tab: LauncherTab::PullRequests, .. }));
    assert_eq!(app.launcher_prs_rows().len(), 1);
}

#[test]
fn filter_labels_on_the_prs_tab_are_number_and_title() {
    let ops = SyncPrListOps {
        outcome: PrFetchOutcome::Loaded { repo_label: "org/repo".to_string(), prs: vec![pr(42, "fix the thing")] },
    };
    let mut app = app();
    app.mode = launcher(LauncherTab::PullRequests, 0);
    app.ensure_launcher_prs_loaded(Some(&ops));
    assert_eq!(app.review_launcher_filter_labels(), vec!["#42 fix the thing".to_string()]);
}

#[test]
fn confirm_on_the_branches_tab_asks_for_a_review_of_the_row() {
    let ops = BranchListOps { branches: vec![branch("alpha"), branch("zulu")] };
    let mut app = app();
    app.open_review_launcher(Some(&ops));
    app.review_launcher_move_down();
    assert_eq!(app.review_launcher_confirm(Some(&ops)), Some(LauncherStart::Branch { name: "zulu".to_string() }));
    assert!(matches!(app.mode, Mode::ReviewLauncher { .. }));
}

#[test]
fn a_pr_confirm_marks_the_checkout_running_and_refuses_a_second_one() {
    let ops = SyncPrListOps {
        outcome: PrFetchOutcome::Loaded { repo_label: "org/repo".to_string(), prs: vec![pr(7, "add widgets")] },
    };
    let mut app = app();
    app.mode = launcher(LauncherTab::PullRequests, 0);
    app.ensure_launcher_prs_loaded(Some(&ops));
    assert!(app.review_launcher_confirm(Some(&ops)).is_some());
    assert!(app.pr_checkout_in_flight);
    assert_eq!(app.status_message.as_deref(), Some("checking out #7 \u{2026}"));
    assert_eq!(app.review_launcher_confirm(Some(&ops)), None);
    assert_eq!(
        app.status_message.as_deref(),
        Some("a PR checkout is already running \u{2014} wait for it")
    );
}

#[test]
fn a_degraded_listing_is_replaced_by_the_next_inline_listing() {
    let ops = SyncPrListOps {
        outcome: PrFetchOutcome::Loaded { repo_label: "org/repo".to_string(), prs: vec![pr(3, "three")] },
    };
    let mut app = app();
    app.launcher_prs = Some(PrFetchOutcome::ListFailed { message: "boom".to_string() });
    assert!(!app.ensure_launcher_prs_loaded(Some(&ops)));
    assert_eq!(app.launcher_prs, Some(ops.outcome.clone()));
}

#[test]
fn closing_after_motions_and_tab_switches_restores_the_visual_anchor() {
    let mut app = app();
    app.mode = Mode::Visual { anchor: 3 };
    app.open_review_launcher(none());
    app.review_launcher_move_down();
    app.review_launcher_switch_tab(none());
    app.review_launcher_full_page_down();
    app.review_launcher_jump_to_bottom();
    app.review_launcher_toggle_all_commits(none());
    app.review_launcher_move_up();
    app.close_review_launcher();
    assert_eq!(app.mode, Mode::Visual { anchor: 3 });
}
