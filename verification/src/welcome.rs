//! The empty-diff welcome state's situation line: why the diff area is
//! empty, worded per diff target.
use vstd::prelude::*;

use crate::git::{CommitLogEntry, DiffTarget};
use crate::text::push_all;

verus! {

/// The situation line for an empty diff under `target`; a commit is named
/// by the opened commit's short SHA when one is known, else by the target's
/// own revision.
pub open spec fn situation_spec(target: DiffTarget, active_short_sha: Option<Seq<char>>) -> Seq<char> {
    match target {
        DiffTarget::WorkingTree => "No uncommitted changes"@,
        DiffTarget::Staged => "Nothing staged"@,
        DiffTarget::Range(range) => "Empty diff for "@ + range@,
        DiffTarget::Commit(rev) => "Empty commit diff for "@ + match active_short_sha {
            Some(s) => s,
            None => rev@,
        },
        DiffTarget::Review { base, branch } => "Empty diff for "@ + base@ + "..."@ + branch@,
        DiffTarget::File(path) => path@ + " is empty"@,
    }
}

/// The short SHA of an optional commit.
pub open spec fn short_sha_of(c: Option<&CommitLogEntry>) -> Option<Seq<char>> {
    match c {
        Some(c) => Some(c.short_sha@),
        None => None,
    }
}

/// The one-line situation text for `target` (see [`situation_spec`]).
pub fn situation(target: &DiffTarget, active_commit: Option<&CommitLogEntry>) -> (s: String)
    ensures
        s@ == situation_spec(*target, short_sha_of(active_commit)),
{
    let mut s = String::new();
    match target {
        DiffTarget::WorkingTree => {
            push_all(&mut s, "No uncommitted changes");
            proof {
                reveal_strlit("No uncommitted changes");
            }
        },
        DiffTarget::Staged => {
            push_all(&mut s, "Nothing staged");
            proof {
                reveal_strlit("Nothing staged");
            }
        },
        DiffTarget::Range(range) => {
            push_all(&mut s, "Empty diff for ");
            push_all(&mut s, range.as_str());
            proof {
                reveal_strlit("Empty diff for ");
            }
        },
        DiffTarget::Commit(rev) => {
            push_all(&mut s, "Empty commit diff for ");
            match active_commit {
                Some(c) => push_all(&mut s, c.short_sha.as_str()),
                None => push_all(&mut s, rev.as_str()),
            }
            proof {
                reveal_strlit("Empty commit diff for ");
            }
        },
        DiffTarget::Review { base, branch } => {
            push_all(&mut s, "Empty diff for ");
            push_all(&mut s, base.as_str());
            push_all(&mut s, "...");
            push_all(&mut s, branch.as_str());
            proof {
                reveal_strlit("Empty diff for ");
                reveal_strlit("...");
            }
        },
        DiffTarget::File(path) => {
            push_all(&mut s, path.as_str());
            push_all(&mut s, " is empty");
            proof {
                reveal_strlit(" is empty");
            }
        },
    }
    s
}

} // verus!
