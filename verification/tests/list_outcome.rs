use std::cell::Cell;

use redquill::forge::{ForgeError, PullRequest};
use redquill::stage_ops::{list_outcome, PrFetchOutcome};

fn pr(number: u64) -> PullRequest {
    PullRequest {
        number,
        title: "add widgets".to_string(),
        author: "ada".to_string(),
        head_ref: "widgets".to_string(),
        base_ref: "main".to_string(),
        is_draft: false,
        updated_at: "2024-01-01T00:00:00Z".to_string(),
    }
}

#[test]
fn a_listing_is_labeled_with_the_repo_slug_and_checks_no_credentials() {
    let checked = Cell::new(false);
    let o = list_outcome(Some("org/repo".to_string()), "github.com", "gh", Ok(vec![pr(1)]), || {
        checked.set(true);
        true
    });
    assert_eq!(o, PrFetchOutcome::Loaded { repo_label: "org/repo".to_string(), prs: vec![pr(1)] });
    assert!(!checked.get());
}

#[test]
fn a_listing_without_a_slug_is_labeled_with_the_hostname() {
    let o = list_outcome(None, "git.example.com", "glab", Ok(Vec::new()), || true);
    assert_eq!(o, PrFetchOutcome::Loaded { repo_label: "git.example.com".to_string(), prs: Vec::new() });
}

#[test]
fn a_missing_cli_is_reported_by_name() {
    let o = list_outcome(None, "github.com", "gh", Err(ForgeError::CliNotFound { cli: "gh" }), || true);
    assert_eq!(o, PrFetchOutcome::CliMissing { cli: "gh", hostname: "github.com".to_string() });
}

#[test]
fn a_failure_without_credentials_reads_as_not_logged_in() {
    let e = ForgeError::Command {
        cli: "gh",
        command: "pr list".to_string(),
        code: "1".to_string(),
        stderr: "HTTP 401".to_string(),
    };
    let o = list_outcome(None, "github.com", "gh", Err(e), || false);
    assert_eq!(o, PrFetchOutcome::Unauthenticated { cli: "gh", hostname: "github.com".to_string() });
}

#[test]
fn a_failure_with_credentials_shows_its_headline() {
    let e = ForgeError::Command {
        cli: "gh",
        command: "pr list".to_string(),
        code: "1".to_string(),
        stderr: "rate limited\nretry later".to_string(),
    };
    let o = list_outcome(None, "github.com", "gh", Err(e), || true);
    assert_eq!(o, PrFetchOutcome::ListFailed { message: "rate limited".to_string() });
}
