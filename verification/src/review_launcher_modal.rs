//! The Review launcher modal's text: the per-tab `Enter` hint, empty-state
//! lines, the pull-request rows' secondary line, and the bodies shown for a
//! pull-request listing that could not be loaded.
use vstd::prelude::*;

use crate::decimal::{dec, push_u64};
use crate::forge::{PR_LIST_CAP, PullRequest, UnresolvedReason};
use crate::review_launcher::LauncherTab;
use crate::stage_ops::PrFetchOutcome;
use crate::text::push_all;
use crate::time_format::{parse_rfc3339_to_unix, relative_spec, relative_time, rfc3339_fits, rfc3339_spec};

verus! {

/// Whether a listing of `count` rows may be missing rows past the
/// provider's page cap.
pub fn prs_reached_cap(count: usize) -> (b: bool)
    ensures
        b == (count >= PR_LIST_CAP),
{
    count >= PR_LIST_CAP
}

/// The "updated" text of a pull request: relative to `now` when
/// `updated_at` reads as RFC 3339, the raw text otherwise.
pub open spec fn updated_spec(now: int, updated_at: Seq<char>) -> Seq<char> {
    match rfc3339_spec(updated_at) {
        Some(ts) => relative_spec(now, ts as int),
        None => updated_at,
    }
}

/// The pull-request row's "updated" text (see [`updated_spec`]).
pub fn pr_updated_display(now: i64, updated_at: &str) -> (s: String)
    requires
        rfc3339_fits(updated_at@),
    ensures
        s@ == updated_spec(now as int, updated_at@),
{
    match parse_rfc3339_to_unix(updated_at) {
        Some(ts) => relative_time(now, ts),
        None => crate::annotate::copy_str(updated_at),
    }
}

/// The pull-request row's secondary line: author, source branch and
/// updated time.
pub open spec fn pr_meta_spec(pr: PullRequest, now: int) -> Seq<char> {
    "\u{2502} "@ + pr.author@ + " \u{b7} "@ + pr.head_ref@ + " \u{b7} "@ + updated_spec(now, pr.updated_at@)
}

/// The pull-request row's secondary line (see [`pr_meta_spec`]).
pub fn pr_meta_line(pr: &PullRequest, now: i64) -> (s: String)
    requires
        rfc3339_fits(pr.updated_at@),
    ensures
        s@ == pr_meta_spec(*pr, now as int),
{
    let mut s = String::new();
    push_all(&mut s, "\u{2502} ");
    push_all(&mut s, pr.author.as_str());
    push_all(&mut s, " \u{b7} ");
    push_all(&mut s, pr.head_ref.as_str());
    push_all(&mut s, " \u{b7} ");
    let u = pr_updated_display(now, pr.updated_at.as_str());
    push_all(&mut s, u.as_str());
    proof {
        reveal_strlit("\u{2502} ");
        reveal_strlit(" \u{b7} ");
    }
    s
}

/// What `Enter` does on `tab`.
pub open spec fn enter_hint_spec(tab: LauncherTab) -> Seq<char> {
    match tab {
        LauncherTab::Branches => "Enter: start branch review"@,
        LauncherTab::Commits => "Enter: review commit (read-only)"@,
        LauncherTab::PullRequests => "Enter: start PR review"@,
    }
}

/// What `Enter` does on `tab`, shown as its own line.
pub fn enter_outcome_hint(tab: LauncherTab) -> (s: &'static str)
    ensures
        s@ == enter_hint_spec(tab),
{
    match tab {
        LauncherTab::Branches => {
            proof {
                reveal_strlit("Enter: start branch review");
            }
            "Enter: start branch review"
        },
        LauncherTab::Commits => {
            proof {
                reveal_strlit("Enter: review commit (read-only)");
            }
            "Enter: review commit (read-only)"
        },
        LauncherTab::PullRequests => {
            proof {
                reveal_strlit("Enter: start PR review");
            }
            "Enter: start PR review"
        },
    }
}

/// Where to point someone to install a forge CLI: glab's page for
/// `glab`, gh's for anything else.
pub fn cli_install_pointer(cli: &str) -> (s: &'static str)
    ensures
        s@ == (if cli@ == "glab"@ {
            "install glab: https://gitlab.com/gitlab-org/cli"@
        } else {
            "install gh: https://cli.github.com"@
        }),
{
    if crate::text::str_eq(cli, "glab") {
        "install glab: https://gitlab.com/gitlab-org/cli"
    } else {
        "install gh: https://cli.github.com"
    }
}

/// The Commits tab's empty-state line: the full log being empty, or nothing
/// ahead of the base with the key that shows every commit.
pub fn commits_empty_state_line(toggle_key: &str, all_commits: bool) -> (s: String)
    ensures
        s@ == (if all_commits {
            "no commits"@
        } else {
            "no commits ahead of base \u{2014} press "@ + toggle_key@ + " for all commits"@
        }),
{
    let mut s = String::new();
    if all_commits {
        push_all(&mut s, "no commits");
        proof {
            reveal_strlit("no commits");
        }
    } else {
        push_all(&mut s, "no commits ahead of base \u{2014} press ");
        push_all(&mut s, toggle_key);
        push_all(&mut s, " for all commits");
        proof {
            reveal_strlit("no commits ahead of base \u{2014} press ");
            reveal_strlit(" for all commits");
        }
    }
    s
}

/// The zero-open-PRs empty state, naming the repo.
pub fn prs_empty_state_text(repo_label: &str) -> (s: String)
    ensures
        s@ == "No open pull requests on "@ + repo_label@,
{
    let mut s = String::new();
    push_all(&mut s, "No open pull requests on ");
    push_all(&mut s, repo_label);
    proof {
        reveal_strlit("No open pull requests on ");
    }
    s
}

/// The note shown below a listing that reached the page cap.
pub fn truncated_listing_text() -> (s: String)
    ensures
        s@ == "showing first "@ + dec(PR_LIST_CAP as nat) + " open PRs \u{2014} narrow with /"@,
{
    let mut s = String::new();
    push_all(&mut s, "showing first ");
    push_u64(&mut s, PR_LIST_CAP as u64);
    push_all(&mut s, " open PRs \u{2014} narrow with /");
    proof {
        reveal_strlit("showing first ");
        reveal_strlit(" open PRs \u{2014} narrow with /");
    }
    s
}

/// The "N finished review(s)" footer, naming the cleanup key.
pub fn finished_reviews_text(count: usize, cleanup_key: &str) -> (s: String)
    ensures
        s@ == dec(count as nat) + " finished review(s) \u{2014} press "@ + cleanup_key@
            + " to clean up"@,
{
    let mut s = String::new();
    push_u64(&mut s, count as u64);
    push_all(&mut s, " finished review(s) \u{2014} press ");
    push_all(&mut s, cleanup_key);
    push_all(&mut s, " to clean up");
    proof {
        reveal_strlit(" finished review(s) \u{2014} press ");
        reveal_strlit(" to clean up");
    }
    s
}

/// How a degraded-state body line reads: a command to copy, or prose.
#[derive(Debug, Clone, Copy, PartialEq, Eq)]
pub enum BodyLine {
    /// A copy-pasteable command line.
    Command,
    /// An explanation.
    Prose,
}

/// The view of a body.
pub open spec fn body_view(lines: Seq<(BodyLine, String)>) -> Seq<(BodyLine, Seq<char>)> {
    lines.map_values(|l: (BodyLine, String)| (l.0, l.1@))
}

/// The `<cli> auth login --hostname <host>` command.
pub open spec fn login_spec(cli: Seq<char>, host: Seq<char>) -> Seq<char> {
    cli + " auth login --hostname "@ + host
}

/// The body shown for a listing that could not be loaded: commands first,
/// then the explanation, with the host named wherever the outcome has one;
/// nothing for a loaded listing.
pub open spec fn degraded_spec(outcome: PrFetchOutcome) -> Seq<(BodyLine, Seq<char>)> {
    match outcome {
        PrFetchOutcome::Loaded { .. } => seq![],
        PrFetchOutcome::NoForgeRemote => seq![
            (BodyLine::Prose, "no forge remote \u{2014} add a GitHub/GitLab `origin` remote to use this tab"@),
        ],
        PrFetchOutcome::Unresolved { hostname, reason } => seq![
            (BodyLine::Command, login_spec("gh"@, hostname@)),
            (BodyLine::Command, login_spec("glab"@, hostname@)),
            (
                BodyLine::Prose,
                match reason {
                    UnresolvedReason::NoCredentials => "neither CLI holds credentials for "@
                        + hostname@ + " \u{2014} run one of the above"@,
                    UnresolvedReason::Ambiguous => "both CLIs hold credentials for "@ + hostname@
                        + " \u{2014} redquill can't tell which forge this is"@,
                },
            ),
        ],
        PrFetchOutcome::CliMissing { cli, hostname } => seq![
            (BodyLine::Command, if cli@ == "glab"@ {
                "install glab: https://gitlab.com/gitlab-org/cli"@
            } else {
                "install gh: https://cli.github.com"@
            }),
            (BodyLine::Command, login_spec(cli@, hostname@)),
            (BodyLine::Prose, cli@ + " isn't on PATH"@),
        ],
        PrFetchOutcome::Unauthenticated { cli, hostname } => seq![
            (BodyLine::Command, login_spec(cli@, hostname@)),
            (BodyLine::Prose, cli@ + " is installed but not logged in for "@ + hostname@),
        ],
        PrFetchOutcome::ListFailed { message } => seq![
            (BodyLine::Prose, message@),
            (BodyLine::Prose, "switch tabs and back to retry"@),
        ],
    }
}

fn login_line(cli: &str, host: &str) -> (s: String)
    ensures
        s@ == login_spec(cli@, host@),
{
    let mut s = crate::annotate::copy_str(cli);
    push_all(&mut s, " auth login --hostname ");
    push_all(&mut s, host);
    proof {
        reveal_strlit(" auth login --hostname ");
    }
    s
}

/// The body shown for a pull-request listing that could not be loaded (see
/// [`degraded_spec`]).
pub fn prs_degraded_body(outcome: &PrFetchOutcome) -> (lines: Vec<(BodyLine, String)>)
    ensures
        body_view(lines@) == degraded_spec(*outcome),
{
    let mut out: Vec<(BodyLine, String)> = Vec::new();
    match outcome {
        PrFetchOutcome::Loaded { .. } => {},
        PrFetchOutcome::NoForgeRemote => {
            let t = "no forge remote \u{2014} add a GitHub/GitLab `origin` remote to use this tab";
            proof {
                reveal_strlit("no forge remote \u{2014} add a GitHub/GitLab `origin` remote to use this tab");
            }
            out.push((BodyLine::Prose, crate::annotate::copy_str(t)));
        },
        PrFetchOutcome::Unresolved { hostname, reason } => {
            proof {
                reveal_strlit("gh");
                reveal_strlit("glab");
            }
            out.push((BodyLine::Command, login_line("gh", hostname.as_str())));
            out.push((BodyLine::Command, login_line("glab", hostname.as_str())));
            let mut why = String::new();
            match reason {
                UnresolvedReason::NoCredentials => {
                    push_all(&mut why, "neither CLI holds credentials for ");
                    push_all(&mut why, hostname.as_str());
                    push_all(&mut why, " \u{2014} run one of the above");
                    proof {
                        reveal_strlit("neither CLI holds credentials for ");
                        reveal_strlit(" \u{2014} run one of the above");
                    }
                },
                UnresolvedReason::Ambiguous => {
                    push_all(&mut why, "both CLIs hold credentials for ");
                    push_all(&mut why, hostname.as_str());
                    push_all(&mut why, " \u{2014} redquill can't tell which forge this is");
                    proof {
                        reveal_strlit("both CLIs hold credentials for ");
                        reveal_strlit(" \u{2014} redquill can't tell which forge this is");
                    }
                },
            }
            out.push((BodyLine::Prose, why));
        },
        PrFetchOutcome::CliMissing { cli, hostname } => {
            proof {
                reveal_strlit("install glab: https://gitlab.com/gitlab-org/cli");
                reveal_strlit("install gh: https://cli.github.com");
                reveal_strlit("glab");
            }
            out.push((BodyLine::Command, crate::annotate::copy_str(cli_install_pointer(*cli))));
            out.push((BodyLine::Command, login_line(*cli, hostname.as_str())));
            let mut t = crate::annotate::copy_str(*cli);
            push_all(&mut t, " isn't on PATH");
            proof {
                reveal_strlit(" isn't on PATH");
            }
            out.push((BodyLine::Prose, t));
        },
        PrFetchOutcome::Unauthenticated { cli, hostname } => {
            out.push((BodyLine::Command, login_line(*cli, hostname.as_str())));
            let mut t = crate::annotate::copy_str(*cli);
            push_all(&mut t, " is installed but not logged in for ");
            push_all(&mut t, hostname.as_str());
            proof {
                reveal_strlit(" is installed but not logged in for ");
            }
            out.push((BodyLine::Prose, t));
        },
        PrFetchOutcome::ListFailed { message } => {
            out.push((BodyLine::Prose, message.clone()));
            proof {
                reveal_strlit("switch tabs and back to retry");
            }
            out.push((BodyLine::Prose, crate::annotate::copy_str("switch tabs and back to retry")));
        },
    }
    assert(body_view(out@) =~= degraded_spec(*outcome));
    out
}

} // verus!
