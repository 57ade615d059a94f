//! How a review started from the launcher ends: a branch review or a
//! pull-request checkout either enters the review (the launcher closes into
//! it) or reports why not (the launcher closes back where it was opened
//! from). A failed pull-request fetch destroys nothing: a surviving prior
//! checkout is entered as a clearly labeled stale review, and otherwise
//! only a diagnostic is shown.
use vstd::prelude::*;

use crate::app::{App, Mode, ModeOrigin, clamp_cursor, concat2, concat3, restore_spec};
use crate::decimal::{dec, push_u64};
use crate::git::GitError;
use crate::stage_ops::{PrCheckoutOutcome, StageOps};
use crate::text::push_all;

verus! {

/// How a pull-request review is entered.
#[derive(Debug, Clone, PartialEq, Eq)]
pub enum PrEntry {
    /// A fresh checkout at `head_sha`; `moved` when the author pushed since
    /// the last one.
    Fresh { head_sha: String, moved: bool },
    /// A prior checkout, after its fetch failed with `message`.
    Stale { message: String },
}

/// What the caller does after a pull-request checkout finished.
#[derive(Debug, Clone, PartialEq, Eq)]
pub enum PrCheckoutNext {
    /// Enter the review of the worktree at `worktree_path`, then hand the
    /// outcome to [`App::finish_pr_review_entry`].
    Enter { worktree_path: String, entry: PrEntry },
    /// Nothing more: the outcome is in the footer.
    Done,
}

/// The footer message of a failed fetch while already reviewing the
/// checkout.
pub open spec fn stale_in_session_text(message: Seq<char>) -> Seq<char> {
    "PR fetch failed ("@ + message + ") \u{2014} checkout may be stale"@
}

/// The footer message of a failed fetch that fell back to the prior
/// checkout.
pub open spec fn stale_entry_text(message: Seq<char>) -> Seq<char> {
    "PR fetch failed ("@ + message + ") \u{2014} reviewing stale checkout"@
}

/// The footer message of a failed fetch with nothing to fall back to.
pub open spec fn fetch_failed_text(message: Seq<char>) -> Seq<char> {
    "PR fetch failed: "@ + message
}

/// The footer message of a refresh that found the author pushed.
pub open spec fn pr_updated_text(demoted: nat) -> Seq<char> {
    "PR updated \u{2014} "@ + dec(demoted) + " accepted file(s) changed"@
}

/// The footer message of a fresh pull-request review.
pub open spec fn reviewing_pr_text(number: u64, title: Seq<char>) -> Seq<char> {
    "reviewing #"@ + dec(number as nat) + " "@ + title
}

/// The mode the launcher closes to once a review started: a git-panel
/// origin comes back with its cursor clamped to the panel's rows (the
/// review's file list may have another shape); any other origin comes back
/// exactly. Outside the launcher the mode stays.
pub open spec fn after_start_mode(app: App) -> Mode {
    match app.mode {
        Mode::ReviewLauncher { origin, .. } => match origin {
            ModeOrigin::Panel { cursor, tab } => Mode::Panel {
                cursor: clamp_cursor(cursor as int, app.panel_rows as int) as usize,
                tab,
            },
            _ => restore_spec(origin),
        },
        m => m,
    }
}

/// The mode the launcher closes to when starting a review failed: the
/// origin, exactly.
pub open spec fn after_failure_mode(app: App) -> Mode {
    match app.mode {
        Mode::ReviewLauncher { origin, .. } => restore_spec(origin),
        m => m,
    }
}

/// The base a review diffs against: `base_override` when given, otherwise
/// the backend's default base.
pub fn resolve_review_base<O: StageOps>(ops: &O, base_override: Option<&str>) -> (r: Result<
    String,
    GitError,
>)
    ensures
        base_override matches Some(b) ==> (r matches Ok(s) && s@ == b@),
{
    match base_override {
        Some(b) => Ok(crate::annotate::copy_str(b)),
        None => ops.default_base(),
    }
}

impl App {
    /// Closes the launcher into a review that just started (see
    /// [`after_start_mode`]).
    pub fn close_review_launcher_after_start(&mut self)
        ensures
            *final(self) == (App { mode: after_start_mode(*old(self)), ..*old(self) }),
    {
        if let Mode::ReviewLauncher { origin, .. } = self.mode {
            self.mode = match origin {
                ModeOrigin::Panel { cursor, tab } => {
                    let len = self.panel_rows;
                    let c = if len == 0 {
                        0
                    } else if cursor < len {
                        cursor
                    } else {
                        len - 1
                    };
                    Mode::Panel { cursor: c, tab }
                },
                _ => origin.restore(),
            };
        }
    }

    /// Ends starting a review of `branch` from the launcher, given whether
    /// the session could be set up (the base resolved, the worktree ensured
    /// and the session re-rooted onto it): on success the launcher closes
    /// into the review and the footer names the branch; on failure it closes
    /// back to its origin and the footer says why.
    pub fn finish_branch_review(&mut self, branch: &str, result: Result<(), String>)
        ensures
            final(self).message() == Some(
                match result {
                    Ok(_) => "reviewing "@ + branch@,
                    Err(e) => "review failed: "@ + e@,
                },
            ),
            *final(self) == (App {
                mode: match result {
                    Ok(_) => after_start_mode(*old(self)),
                    Err(_) => after_failure_mode(*old(self)),
                },
                status_message: final(self).status_message,
                ..*old(self)
            }),
    {
        proof {
            reveal_strlit("reviewing ");
            reveal_strlit("review failed: ");
        }
        match result {
            Ok(()) => {
                self.close_review_launcher_after_start();
                self.status_message = Some(concat2("reviewing ", branch));
            },
            Err(e) => {
                self.status_message = Some(concat2("review failed: ", e.as_str()));
                self.close_review_launcher();
            },
        }
    }

    /// Finishes a pull-request checkout that ended with `outcome`; the
    /// checkout is no longer in flight. A ready worktree is entered as a
    /// fresh review. A failed fetch with a surviving prior checkout either
    /// relabels the review in progress as stale (`from_session`: a refresh
    /// from inside it) or enters that checkout as a stale review. A failed
    /// fetch with nothing to fall back to only reports the failure, closing
    /// the launcher back to its origin unless the checkout ran from inside a
    /// review.
    pub fn finish_pr_checkout(&mut self, outcome: PrCheckoutOutcome, from_session: bool) -> (next:
        PrCheckoutNext)
        ensures
            final(self).pr_checkout_in_flight == false,
            match outcome {
                PrCheckoutOutcome::Ready { head_sha, moved, worktree_path } => {
                    &&& next == PrCheckoutNext::Enter {
                        worktree_path,
                        entry: PrEntry::Fresh { head_sha, moved },
                    }
                    &&& *final(self) == (App { pr_checkout_in_flight: false, ..*old(self) })
                },
                PrCheckoutOutcome::Failed { message, stale_worktree } => match stale_worktree {
                    Some(path) => if from_session {
                        &&& next == PrCheckoutNext::Done
                        &&& final(self).message() == Some(stale_in_session_text(message@))
                        &&& *final(self) == (App {
                            pr_checkout_in_flight: false,
                            review_stale: true,
                            status_message: final(self).status_message,
                            ..*old(self)
                        })
                    } else {
                        &&& next == PrCheckoutNext::Enter {
                            worktree_path: path,
                            entry: PrEntry::Stale { message },
                        }
                        &&& *final(self) == (App { pr_checkout_in_flight: false, ..*old(self) })
                    },
                    None => {
                        &&& next == PrCheckoutNext::Done
                        &&& final(self).message() == Some(fetch_failed_text(message@))
                        &&& *final(self) == (App {
                            pr_checkout_in_flight: false,
                            status_message: final(self).status_message,
                            mode: if from_session {
                                old(self).mode
                            } else {
                                after_failure_mode(*old(self))
                            },
                            ..*old(self)
                        })
                    },
                },
            },
    {
        self.pr_checkout_in_flight = false;
        proof {
            reveal_strlit("PR fetch failed (");
            reveal_strlit(") \u{2014} checkout may be stale");
            reveal_strlit("PR fetch failed: ");
        }
        match outcome {
            PrCheckoutOutcome::Ready { head_sha, moved, worktree_path } => PrCheckoutNext::Enter {
                worktree_path,
                entry: PrEntry::Fresh { head_sha, moved },
            },
            PrCheckoutOutcome::Failed { message, stale_worktree } => match stale_worktree {
                Some(path) => {
                    if from_session {
                        self.review_stale = true;
                        self.status_message = Some(
                            concat3(
                                "PR fetch failed (",
                                message.as_str(),
                                ") \u{2014} checkout may be stale",
                            ),
                        );
                        PrCheckoutNext::Done
                    } else {
                        PrCheckoutNext::Enter {
                            worktree_path: path,
                            entry: PrEntry::Stale { message },
                        }
                    }
                },
                None => {
                    self.status_message = Some(concat2("PR fetch failed: ", message.as_str()));
                    if !from_session {
                        self.close_review_launcher();
                    }
                    PrCheckoutNext::Done
                },
            },
        }
    }

    /// Ends entering the review of pull request `number` (`title`) as
    /// `entry` says, given whether the session could be re-rooted onto its
    /// worktree (`Ok` with how many accepted files the refresh demoted). On
    /// success the review is marked stale or not, the launcher closes into
    /// it (unless entered from inside a review), and the footer reports a
    /// moved head's demotions, names a fresh review, or explains a stale
    /// one. On failure the footer says why and the launcher closes back to
    /// its origin (unless entered from inside a review).
    pub fn finish_pr_review_entry(
        &mut self,
        number: u64,
        title: &str,
        entry: &PrEntry,
        from_session: bool,
        result: Result<u64, String>,
    )
        ensures
            match result {
                Ok(demoted) => {
                    &&& final(self).review_stale == (entry is Stale)
                    &&& final(self).message() == match *entry {
                        PrEntry::Fresh { moved, .. } => if moved {
                            Some(pr_updated_text(demoted as nat))
                        } else {
                            Some(reviewing_pr_text(number, title@))
                        },
                        PrEntry::Stale { message } => Some(stale_entry_text(message@)),
                    }
                    &&& *final(self) == (App {
                        review_stale: final(self).review_stale,
                        status_message: final(self).status_message,
                        mode: if from_session {
                            old(self).mode
                        } else {
                            after_start_mode(*old(self))
                        },
                        ..*old(self)
                    })
                },
                Err(e) => {
                    &&& final(self).message() == Some(
                        if old(self).review_stale && entry is Stale {
                            stale_entry_text(entry->message@)
                        } else {
                            "review failed: "@ + e@
                        },
                    )
                    &&& *final(self) == (App {
                        status_message: final(self).status_message,
                        mode: if from_session {
                            old(self).mode
                        } else {
                            after_failure_mode(*old(self))
                        },
                        ..*old(self)
                    })
                },
            },
    {
        proof {
            reveal_strlit("PR updated \u{2014} ");
            reveal_strlit(" accepted file(s) changed");
            reveal_strlit("reviewing #");
            reveal_strlit(" ");
            reveal_strlit("review failed: ");
            reveal_strlit("PR fetch failed (");
            reveal_strlit(") \u{2014} reviewing stale checkout");
        }
        match result {
            Ok(demoted) => {
                let stale = matches!(entry, PrEntry::Stale { .. });
                self.review_stale = stale;
                if !from_session {
                    self.close_review_launcher_after_start();
                }
                match entry {
                    PrEntry::Fresh { moved, .. } => {
                        if *moved {
                            let mut m = String::from_str("PR updated \u{2014} ");
                            push_u64(&mut m, demoted);
                            push_all(&mut m, " accepted file(s) changed");
                            self.status_message = Some(m);
                        } else {
                            let mut m = String::from_str("reviewing #");
                            push_u64(&mut m, number);
                            push_all(&mut m, " ");
                            push_all(&mut m, title);
                            self.status_message = Some(m);
                        }
                    },
                    PrEntry::Stale { message } => {
                        self.status_message = Some(
                            concat3(
                                "PR fetch failed (",
                                message.as_str(),
                                ") \u{2014} reviewing stale checkout",
                            ),
                        );
                    },
                }
            },
            Err(e) => {
                self.status_message = Some(concat2("review failed: ", e.as_str()));
                if !from_session {
                    self.close_review_launcher();
                }
                if let PrEntry::Stale { message } = entry {
                    if self.review_stale {
                        self.status_message = Some(
                            concat3(
                                "PR fetch failed (",
                                message.as_str(),
                                ") \u{2014} reviewing stale checkout",
                            ),
                        );
                    }
                }
            },
        }
    }
}

} // verus!
