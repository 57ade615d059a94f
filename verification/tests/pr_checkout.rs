use redquill::git::{GitError, PrRef, PrRefKind};
use redquill::pr_checkout::{
    CheckoutEvent, CheckoutNext, CheckoutPhase, CheckoutStep, checkout_next, checkout_start,
    git_error_headline,
};
use redquill::stage_ops::{PrCheckoutOutcome, PrCheckoutRequest};

fn request(exists: bool, stored: Option<&str>) -> PrCheckoutRequest {
    PrCheckoutRequest {
        pr_ref: PrRef::new(PrRefKind::GitHub, 7),
        base_ref: "main".to_string(),
        managed_branch: "redquill/pr/7".to_string(),
        worktree_path: "/repo/.redquill/worktrees/pr-7".to_string(),
        worktree_exists: exists,
        stored_head_sha: stored.map(str::to_string),
    }
}

fn command_error(stderr: &str) -> GitError {
    GitError::Command {
        command: "fetch".to_string(),
        code: "128".to_string(),
        stderr: stderr.to_string(),
    }
}

/// Drives a checkout to its end, answering each step from `answer`, and
/// returns the steps it asked for with its outcome.
fn drive(
    req: &PrCheckoutRequest,
    mut answer: impl FnMut(CheckoutStep) -> CheckoutEvent,
) -> (Vec<CheckoutStep>, PrCheckoutOutcome) {
    let mut steps = Vec::new();
    let mut next = checkout_start(req);
    loop {
        match next {
            CheckoutNext::Run(phase, step) => {
                steps.push(step);
                assert!(steps.len() <= 7, "a checkout ends within seven steps");
                next = checkout_next(req, phase, answer(step));
            }
            CheckoutNext::Done(outcome) => return (steps, outcome),
        }
    }
}

#[test]
fn a_first_checkout_fetches_then_adds_the_worktree() {
    let req = request(false, None);
    let (steps, outcome) = drive(&req, |step| match step {
        CheckoutStep::FetchPrHead => CheckoutEvent::Fetched(Ok(())),
        CheckoutStep::FetchBaseRef => CheckoutEvent::BaseFetched,
        CheckoutStep::ReadHeadSha => CheckoutEvent::HeadSha(Some("abc123".to_string())),
        CheckoutStep::AddWorktree => CheckoutEvent::WorktreeAdded(Ok("/wt/pr-7".to_string())),
        other => panic!("unexpected step {other:?}"),
    });
    assert_eq!(
        steps,
        vec![
            CheckoutStep::FetchPrHead,
            CheckoutStep::FetchBaseRef,
            CheckoutStep::ReadHeadSha,
            CheckoutStep::AddWorktree,
        ]
    );
    assert_eq!(
        outcome,
        PrCheckoutOutcome::Ready {
            head_sha: "abc123".to_string(),
            moved: false,
            worktree_path: "/wt/pr-7".to_string(),
        }
    );
}

#[test]
fn a_first_checkout_with_an_unreadable_head_records_an_empty_sha() {
    let req = request(false, None);
    let (_, outcome) = drive(&req, |step| match step {
        CheckoutStep::FetchPrHead => CheckoutEvent::Fetched(Ok(())),
        CheckoutStep::FetchBaseRef => CheckoutEvent::BaseFetched,
        CheckoutStep::ReadHeadSha => CheckoutEvent::HeadSha(None),
        CheckoutStep::AddWorktree => CheckoutEvent::WorktreeAdded(Ok("/wt".to_string())),
        other => panic!("unexpected step {other:?}"),
    });
    assert_eq!(
        outcome,
        PrCheckoutOutcome::Ready { head_sha: String::new(), moved: false, worktree_path: "/wt".to_string() }
    );
}

#[test]
fn a_failed_first_fetch_offers_no_stale_worktree() {
    let req = request(false, None);
    let (steps, outcome) = drive(&req, |_| {
        CheckoutEvent::Fetched(Err(command_error("\n  fatal: couldn't find remote ref  \nmore\n")))
    });
    assert_eq!(steps, vec![CheckoutStep::FetchPrHead]);
    assert_eq!(
        outcome,
        PrCheckoutOutcome::Failed {
            message: "fatal: couldn't find remote ref".to_string(),
            stale_worktree: None,
        }
    );
}

#[test]
fn a_reopen_with_an_unmoved_head_reuses_the_worktree() {
    let req = request(true, Some("abc123"));
    let (steps, outcome) = drive(&req, |step| match step {
        CheckoutStep::PeekPrHead => CheckoutEvent::Peeked(Ok("abc123".to_string())),
        CheckoutStep::FetchBaseRef => CheckoutEvent::BaseFetched,
        other => panic!("a reopen with an unmoved head never runs {other:?}"),
    });
    assert_eq!(steps, vec![CheckoutStep::PeekPrHead, CheckoutStep::FetchBaseRef]);
    assert_eq!(
        outcome,
        PrCheckoutOutcome::Ready {
            head_sha: "abc123".to_string(),
            moved: false,
            worktree_path: "/repo/.redquill/worktrees/pr-7".to_string(),
        }
    );
}

#[test]
fn a_reopen_with_a_moved_head_recreates_the_worktree() {
    let req = request(true, Some("abc123"));
    let (steps, outcome) = drive(&req, |step| match step {
        CheckoutStep::PeekPrHead => CheckoutEvent::Peeked(Ok("def456".to_string())),
        CheckoutStep::RemoveWorktree => CheckoutEvent::Removed(Ok(())),
        CheckoutStep::PruneWorktrees => CheckoutEvent::Pruned,
        CheckoutStep::FetchPrHead => CheckoutEvent::Fetched(Ok(())),
        CheckoutStep::FetchBaseRef => CheckoutEvent::BaseFetched,
        CheckoutStep::AddWorktree => CheckoutEvent::WorktreeAdded(Ok("/wt/new".to_string())),
        other => panic!("unexpected step {other:?}"),
    });
    assert_eq!(
        steps,
        vec![
            CheckoutStep::PeekPrHead,
            CheckoutStep::RemoveWorktree,
            CheckoutStep::PruneWorktrees,
            CheckoutStep::FetchPrHead,
            CheckoutStep::FetchBaseRef,
            CheckoutStep::AddWorktree,
        ]
    );
    assert_eq!(
        outcome,
        PrCheckoutOutcome::Ready { head_sha: "def456".to_string(), moved: true, worktree_path: "/wt/new".to_string() }
    );
}

#[test]
fn a_reopen_without_a_stored_head_counts_as_moved() {
    let req = request(true, None);
    let next = checkout_next(&req, CheckoutPhase::Peeking, CheckoutEvent::Peeked(Ok("abc".to_string())));
    assert!(matches!(next, CheckoutNext::Run(_, CheckoutStep::RemoveWorktree)));
}

#[test]
fn a_failed_peek_offers_the_existing_worktree_as_stale() {
    let req = request(true, Some("abc123"));
    let (steps, outcome) =
        drive(&req, |_| CheckoutEvent::Peeked(Err(GitError::Parse("offline".to_string()))));
    assert_eq!(steps, vec![CheckoutStep::PeekPrHead]);
    assert_eq!(
        outcome,
        PrCheckoutOutcome::Failed {
            message: "could not read git output: offline".to_string(),
            stale_worktree: Some("/repo/.redquill/worktrees/pr-7".to_string()),
        }
    );
}

#[test]
fn a_failed_removal_offers_the_worktree_as_stale() {
    let req = request(true, Some("abc123"));
    let next = checkout_next(
        &req,
        CheckoutPhase::Removing { remote: "def".to_string() },
        CheckoutEvent::Removed(Err(command_error("locked"))),
    );
    assert_eq!(
        next,
        CheckoutNext::Done(PrCheckoutOutcome::Failed {
            message: "locked".to_string(),
            stale_worktree: Some("/repo/.redquill/worktrees/pr-7".to_string()),
        })
    );
}

#[test]
fn a_failed_refetch_after_removal_has_no_stale_worktree() {
    let req = request(true, Some("abc123"));
    let next = checkout_next(
        &req,
        CheckoutPhase::Refetching { remote: "def".to_string() },
        CheckoutEvent::Fetched(Err(command_error("network down"))),
    );
    assert_eq!(
        next,
        CheckoutNext::Done(PrCheckoutOutcome::Failed {
            message: "network down".to_string(),
            stale_worktree: None,
        })
    );
}

#[test]
fn the_headline_of_a_blank_stderr_is_the_whole_error() {
    let e = command_error("  \n ");
    assert_eq!(git_error_headline(&e), "git fetch exited with code 128:   \n ");
}

#[test]
fn the_headline_skips_blank_lines_and_trims() {
    let e = command_error("\r\n\t\n  error: pathspec  \r\nhint: x");
    assert_eq!(git_error_headline(&e), "error: pathspec");
}

#[test]
fn the_headline_of_a_parse_error_is_its_text() {
    let e = GitError::Parse("bad".to_string());
    assert_eq!(git_error_headline(&e), "could not read git output: bad");
}
