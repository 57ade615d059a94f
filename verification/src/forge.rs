//! The forge (GitHub/GitLab) read model the review launcher shows: pull
//! requests as listed by the forge CLIs, why a provider could not be
//! resolved, and the CLI failures a listing can end in.
use vstd::prelude::*;

use crate::text::{lines_of, lines_spec, push_all};

verus! {

/// The most pull requests one listing asks the forge CLI for.
pub const PR_LIST_CAP: usize = 100;

/// One open pull (or merge) request, as the forge CLI lists it.
#[derive(Debug, Clone, PartialEq, Eq)]
pub struct PullRequest {
    /// The PR number.
    pub number: u64,
    /// The PR title.
    pub title: String,
    /// The author's login.
    pub author: String,
    /// The head branch name.
    pub head_ref: String,
    /// The base branch name.
    pub base_ref: String,
    /// Whether the PR is a draft.
    pub is_draft: bool,
    /// When the PR was last updated, RFC 3339.
    pub updated_at: String,
}

/// Why `origin`'s host could not be tied to one forge CLI.
#[derive(Debug, Clone, Copy, PartialEq, Eq)]
pub enum UnresolvedReason {
    /// Neither CLI holds credentials for the host.
    NoCredentials,
    /// Both CLIs hold credentials for the host.
    Ambiguous,
}

/// A failed forge CLI call.
#[derive(Debug, Clone, PartialEq, Eq)]
pub enum ForgeError {
    /// The CLI binary is not on `PATH`.
    CliNotFound { cli: &'static str },
    /// The CLI ran and exited non-zero.
    Command { cli: &'static str, command: String, code: String, stderr: String },
    /// The CLI's output could not be read.
    Parse { cli: &'static str, message: String },
}

/// The text a forge error displays as.
pub open spec fn forge_error_text(e: ForgeError) -> Seq<char> {
    match e {
        ForgeError::CliNotFound { cli } => cli@ + " not found on PATH"@,
        ForgeError::Command { cli, command, code, stderr } => cli@ + " "@ + command@
            + " exited with code "@ + code@ + ": "@ + stderr@,
        ForgeError::Parse { cli, message } => "could not read "@ + cli@ + " output: "@ + message@,
    }
}

impl ForgeError {
    /// The error's display text (see [`forge_error_text`]).
    pub fn message(&self) -> (s: String)
        ensures
            s@ == forge_error_text(*self),
    {
        let mut s = String::new();
        match self {
            ForgeError::CliNotFound { cli } => {
                push_all(&mut s, *cli);
                push_all(&mut s, " not found on PATH");
                proof {
                    reveal_strlit(" not found on PATH");
                }
            },
            ForgeError::Command { cli, command, code, stderr } => {
                push_all(&mut s, *cli);
                push_all(&mut s, " ");
                push_all(&mut s, command.as_str());
                push_all(&mut s, " exited with code ");
                push_all(&mut s, code.as_str());
                push_all(&mut s, ": ");
                push_all(&mut s, stderr.as_str());
                proof {
                    reveal_strlit(" ");
                    reveal_strlit(" exited with code ");
                    reveal_strlit(": ");
                }
            },
            ForgeError::Parse { cli, message } => {
                push_all(&mut s, "could not read ");
                push_all(&mut s, *cli);
                push_all(&mut s, " output: ");
                push_all(&mut s, message.as_str());
                proof {
                    reveal_strlit("could not read ");
                    reveal_strlit(" output: ");
                }
            },
        }
        s
    }
}

/// The one-line summary of a forge error: a `Command` error's first stderr
/// line when its stderr is non-empty, the error's display text otherwise.
pub open spec fn headline_spec(e: ForgeError) -> Seq<char> {
    match e {
        ForgeError::Command { stderr, .. } => if stderr@.len() > 0 {
            let ls = lines_spec(stderr@);
            if ls.len() > 0 {
                ls[0]
            } else {
                stderr@
            }
        } else {
            forge_error_text(e)
        },
        _ => forge_error_text(e),
    }
}

/// The one-line summary a forge error contributes to a failed listing: a
/// `Command` error's first stderr line (stderr is often multi-line), or the
/// error's own display text for every other case.
pub fn forge_error_headline(e: &ForgeError) -> (s: String)
    ensures
        s@ == headline_spec(*e),
{
    match e {
        ForgeError::Command { stderr, .. } => {
            if !stderr.as_str().is_empty() {
                let ls = lines_of(stderr.as_str());
                if ls.len() > 0 {
                    crate::text::string_of(ls[0].as_slice())
                } else {
                    stderr.clone()
                }
            } else {
                e.message()
            }
        },
        _ => e.message(),
    }
}

} // verus!
