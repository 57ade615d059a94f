use redquill::forge::{UnresolvedReason, PR_LIST_CAP, PullRequest};
use redquill::review_launcher::LauncherTab;
use redquill::review_launcher_modal::{
    cli_install_pointer, commits_empty_state_line, enter_outcome_hint, finished_reviews_text,
    pr_meta_line, pr_updated_display, prs_degraded_body, prs_empty_state_text, prs_reached_cap,
    truncated_listing_text, BodyLine,
};
use redquill::stage_ops::PrFetchOutcome;

#[test]
fn pr_updated_display_relatives_a_valid_timestamp_and_falls_back_on_garbage() {
    let now = 1_700_000_000; // fixed instant, independent of wall clock
    let cases: &[(&str, &str)] = &[
        ("2023-11-14T22:13:20Z", "just now"),
        ("2022-11-14T22:13:20Z", "1y ago"),
        ("not-a-timestamp", "not-a-timestamp"),
        ("", ""),
    ];
    for &(input, expected) in cases {
        assert_eq!(pr_updated_display(now, input), expected, "input {input:?}");
    }
}

#[test]
fn prs_reached_cap_is_true_at_the_cap_and_false_one_below_it() {
    let cap = PR_LIST_CAP;
    assert!(!prs_reached_cap(cap - 1));
    assert!(prs_reached_cap(cap));
    assert!(prs_reached_cap(cap + 1));
}

#[test]
fn enter_hints_name_each_tabs_outcome() {
    assert_eq!(enter_outcome_hint(LauncherTab::Branches), "Enter: start branch review");
    assert_eq!(enter_outcome_hint(LauncherTab::Commits), "Enter: review commit (read-only)");
    assert_eq!(enter_outcome_hint(LauncherTab::PullRequests), "Enter: start PR review");
}

#[test]
fn empty_state_and_footer_lines() {
    assert_eq!(commits_empty_state_line("a", false), "no commits ahead of base \u{2014} press a for all commits");
    assert_eq!(commits_empty_state_line("a", true), "no commits");
    assert_eq!(prs_empty_state_text("sdavisde/redquill"), "No open pull requests on sdavisde/redquill");
    assert_eq!(truncated_listing_text(), "showing first 100 open PRs \u{2014} narrow with /");
    assert_eq!(finished_reviews_text(1, "X"), "1 finished review(s) \u{2014} press X to clean up");
}

#[test]
fn pr_meta_line_names_author_branch_and_updated_time() {
    let pr = PullRequest {
        number: 7,
        title: "Fix it".to_string(),
        author: "octocat".to_string(),
        head_ref: "feature".to_string(),
        base_ref: "main".to_string(),
        is_draft: false,
        updated_at: "2023-11-12T22:13:20Z".to_string(),
    };
    assert_eq!(pr_meta_line(&pr, 1_700_000_000), "\u{2502} octocat \u{b7} feature \u{b7} 2d ago");
}

#[test]
fn degraded_bodies_name_the_recovery_action() {
    assert_eq!(cli_install_pointer("glab"), "install glab: https://gitlab.com/gitlab-org/cli");
    assert_eq!(cli_install_pointer("gh"), "install gh: https://cli.github.com");
    let body = prs_degraded_body(&PrFetchOutcome::Unresolved {
        hostname: "git.example.com".to_string(),
        reason: UnresolvedReason::NoCredentials,
    });
    assert_eq!(
        body,
        vec![
            (BodyLine::Command, "gh auth login --hostname git.example.com".to_string()),
            (BodyLine::Command, "glab auth login --hostname git.example.com".to_string()),
            (BodyLine::Prose, "neither CLI holds credentials for git.example.com \u{2014} run one of the above".to_string()),
        ]
    );
    let body = prs_degraded_body(&PrFetchOutcome::CliMissing { cli: "glab", hostname: "gitlab.com".to_string() });
    assert_eq!(body[0], (BodyLine::Command, "install glab: https://gitlab.com/gitlab-org/cli".to_string()));
    assert_eq!(body[2], (BodyLine::Prose, "glab isn't on PATH".to_string()));
    let body = prs_degraded_body(&PrFetchOutcome::Unauthenticated { cli: "gh", hostname: "github.com".to_string() });
    assert_eq!(body[1], (BodyLine::Prose, "gh is installed but not logged in for github.com".to_string()));
    assert!(prs_degraded_body(&PrFetchOutcome::Loaded { repo_label: "x".to_string(), prs: vec![] }).is_empty());
    assert_eq!(prs_degraded_body(&PrFetchOutcome::ListFailed { message: "boom".to_string() }).len(), 2);
}
