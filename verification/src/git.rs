//! The git read model the UI works over: diff targets, porcelain status
//! entries, branches, worktrees and commit-log entries, as plain values.
use vstd::prelude::*;

use crate::text::push_all;

verus! {

/// What a review session diffs.
#[derive(Debug, Clone, PartialEq, Eq)]
pub enum DiffTarget {
    /// Unstaged working-tree changes against the index.
    WorkingTree,
    /// Staged changes against `HEAD`.
    Staged,
    /// A revision range (`a..b`, `a...b`) or a bare ref.
    Range(String),
    /// One commit against its parent.
    Commit(String),
    /// A branch under review against its base (three-dot).
    Review { base: String, branch: String },
    /// A read-only view of one whole file.
    File(String),
}

/// What a restore puts back: the index and the working tree, or the index
/// alone.
#[derive(Debug, Clone, Copy, PartialEq, Eq)]
pub enum RestoreScope {
    /// Restore both the index and the working tree from `HEAD`.
    IndexAndWorktree,
    /// Restore the index only (unstage), leaving the working tree alone.
    IndexOnly,
}

/// What the staging gesture does under a target.
#[derive(Debug, Clone, Copy, PartialEq, Eq)]
pub enum StagingMode {
    /// Staging adds to the index.
    Stage,
    /// Staging removes from the index.
    Unstage,
    /// Nothing can be staged.
    ReadOnly,
}

impl DiffTarget {
    /// Whether the target reads the live working tree (and so can contain
    /// untracked files).
    pub open spec fn is_live_spec(&self) -> bool {
        self is WorkingTree
    }

    /// Whether the target reads the live working tree.
    pub fn is_live(&self) -> (b: bool)
        ensures
            b == self.is_live_spec(),
    {
        matches!(self, DiffTarget::WorkingTree)
    }

    /// The staging direction for this target: the working tree stages, the
    /// index unstages, everything else is read-only.
    pub open spec fn staging_mode_spec(&self) -> StagingMode {
        match self {
            DiffTarget::WorkingTree => StagingMode::Stage,
            DiffTarget::Staged => StagingMode::Unstage,
            _ => StagingMode::ReadOnly,
        }
    }

    /// The staging direction for this target.
    pub fn staging_mode(&self) -> (m: StagingMode)
        ensures
            m == self.staging_mode_spec(),
    {
        match self {
            DiffTarget::WorkingTree => StagingMode::Stage,
            DiffTarget::Staged => StagingMode::Unstage,
            _ => StagingMode::ReadOnly,
        }
    }

    /// Whether this is a branch-review session's target.
    pub fn is_review(&self) -> (b: bool)
        ensures
            b == (self is Review),
    {
        matches!(self, DiffTarget::Review { .. })
    }
}

/// One porcelain status code (`X` or `Y` of `git status --porcelain`).
#[derive(Debug, Clone, Copy, PartialEq, Eq)]
pub enum StatusCode {
    /// ` `
    Unmodified,
    /// `M`
    Modified,
    /// `T`
    TypeChange,
    /// `A`
    Added,
    /// `D`
    Deleted,
    /// `R`
    Renamed,
    /// `C`
    Copied,
    /// `U`
    Unmerged,
    /// `?`
    Untracked,
    /// `!`
    Ignored,
}

impl StatusCode {
    /// The porcelain letter for this code.
    pub open spec fn letter_spec(self) -> char {
        match self {
            StatusCode::Unmodified => ' ',
            StatusCode::Modified => 'M',
            StatusCode::TypeChange => 'T',
            StatusCode::Added => 'A',
            StatusCode::Deleted => 'D',
            StatusCode::Renamed => 'R',
            StatusCode::Copied => 'C',
            StatusCode::Unmerged => 'U',
            StatusCode::Untracked => '?',
            StatusCode::Ignored => '!',
        }
    }

    /// The porcelain letter for this code.
    pub fn letter(self) -> (c: char)
        ensures
            c == self.letter_spec(),
    {
        match self {
            StatusCode::Unmodified => ' ',
            StatusCode::Modified => 'M',
            StatusCode::TypeChange => 'T',
            StatusCode::Added => 'A',
            StatusCode::Deleted => 'D',
            StatusCode::Renamed => 'R',
            StatusCode::Copied => 'C',
            StatusCode::Unmerged => 'U',
            StatusCode::Untracked => '?',
            StatusCode::Ignored => '!',
        }
    }
}

/// The record kind of a porcelain v2 status line.
#[derive(Debug, Clone, Copy, PartialEq, Eq)]
pub enum ChangeKind {
    /// An ordinary changed entry.
    Ordinary,
    /// A rename or copy.
    RenamedOrCopied,
    /// An unmerged (conflicted) entry.
    Unmerged,
    /// An untracked file.
    Untracked,
    /// An ignored file.
    Ignored,
}

/// One path's porcelain status.
#[derive(Debug, Clone, PartialEq, Eq)]
pub struct FileStatus {
    /// The record kind.
    pub kind: ChangeKind,
    /// The index-side (`X`) code.
    pub staged: StatusCode,
    /// The working-tree-side (`Y`) code.
    pub unstaged: StatusCode,
    /// The current path.
    pub path: String,
    /// The original path of a rename or copy.
    pub orig_path: Option<String>,
}

impl FileStatus {
    /// Whether the index differs from `HEAD` for this path.
    pub open spec fn staged_spec(&self) -> bool {
        !(self.staged is Unmodified || self.staged is Untracked || self.staged is Ignored)
    }

    /// Whether the working tree differs from the index for this path
    /// (an untracked file counts).
    pub open spec fn unstaged_spec(&self) -> bool {
        !(self.unstaged is Unmodified || self.unstaged is Ignored)
    }

    /// Whether the index differs from `HEAD` for this path.
    pub fn has_staged_changes(&self) -> (b: bool)
        ensures
            b == self.staged_spec(),
    {
        !matches!(self.staged, StatusCode::Unmodified | StatusCode::Untracked | StatusCode::Ignored)
    }

    /// Whether the working tree differs from the index for this path.
    pub fn has_unstaged_changes(&self) -> (b: bool)
        ensures
            b == self.unstaged_spec(),
    {
        !matches!(self.unstaged, StatusCode::Unmodified | StatusCode::Ignored)
    }
}

/// One local branch.
#[derive(Debug, Clone, PartialEq, Eq)]
pub struct LocalBranch {
    /// The branch's short name.
    pub name: String,
    /// Whether it is checked out in this worktree.
    pub is_current: bool,
    /// The worktree it is checked out in elsewhere, if any.
    pub worktree: Option<String>,
}

/// The optional text `o`, copied.
pub fn clone_opt_string(o: &Option<String>) -> (r: Option<String>)
    ensures
        r == *o,
{
    match o {
        Some(s) => Some(s.clone()),
        None => None,
    }
}

impl LocalBranch {
    /// A copy of this branch entry.
    pub fn duplicate(&self) -> (b: LocalBranch)
        ensures
            b == *self,
    {
        LocalBranch {
            name: self.name.clone(),
            is_current: self.is_current,
            worktree: clone_opt_string(&self.worktree),
        }
    }
}

/// One `git worktree list --porcelain` entry.
#[derive(Debug, Clone, PartialEq, Eq)]
pub struct WorktreeEntry {
    /// The worktree's path.
    pub path: String,
    /// Its `HEAD` commit, if any.
    pub head: Option<String>,
    /// Its checked-out branch, if any.
    pub branch: Option<String>,
    /// A bare repository entry.
    pub bare: bool,
    /// A detached `HEAD`.
    pub detached: bool,
    /// The lock reason, if locked.
    pub locked: Option<String>,
    /// The prune reason, if prunable.
    pub prunable: Option<String>,
}

/// One commit-log row.
#[derive(Debug, Clone, PartialEq, Eq)]
pub struct CommitLogEntry {
    /// The full SHA.
    pub sha: String,
    /// The abbreviated SHA.
    pub short_sha: String,
    /// The subject line.
    pub subject: String,
    /// The author's name.
    pub author_name: String,
    /// The author time, Unix seconds.
    pub timestamp: i64,
}

/// A `base..head` commit range for a commit-log read.
#[derive(Debug, Clone, PartialEq, Eq)]
pub struct CommitLogRange {
    /// The range's base ref.
    pub base: String,
    /// The range's head ref.
    pub head: String,
}

/// One file's raw `git diff` patch text.
#[derive(Debug, Clone, PartialEq, Eq)]
pub struct RawFilePatch {
    /// The current path.
    pub path: String,
    /// The original path of a rename.
    pub old_path: Option<String>,
    /// The raw patch text.
    pub raw: String,
    /// Whether git reported the file as binary.
    pub is_binary: bool,
}

impl RawFilePatch {
    /// A copy of this patch.
    pub fn duplicate(&self) -> (p: RawFilePatch)
        ensures
            p == *self,
    {
        RawFilePatch {
            path: self.path.clone(),
            old_path: clone_opt_string(&self.old_path),
            raw: self.raw.clone(),
            is_binary: self.is_binary,
        }
    }
}

/// A failed git invocation.
#[derive(Debug, Clone, PartialEq, Eq)]
pub enum GitError {
    /// git ran and exited non-zero.
    Command { command: String, code: String, stderr: String },
    /// git's output could not be read.
    Parse(String),
}

/// The text a git error displays as.
pub open spec fn git_error_text(e: GitError) -> Seq<char> {
    match e {
        GitError::Command { command, code, stderr } => "git "@ + command@ + " exited with code "@
            + code@ + ": "@ + stderr@,
        GitError::Parse(message) => "could not read git output: "@ + message@,
    }
}

impl GitError {
    /// The error's display text (see [`git_error_text`]).
    pub fn message(&self) -> (s: String)
        ensures
            s@ == git_error_text(*self),
    {
        let mut s = String::new();
        match self {
            GitError::Command { command, code, stderr } => {
                push_all(&mut s, "git ");
                push_all(&mut s, command.as_str());
                push_all(&mut s, " exited with code ");
                push_all(&mut s, code.as_str());
                push_all(&mut s, ": ");
                push_all(&mut s, stderr.as_str());
                proof {
                    reveal_strlit("git ");
                    reveal_strlit(" exited with code ");
                    reveal_strlit(": ");
                }
            },
            GitError::Parse(message) => {
                push_all(&mut s, "could not read git output: ");
                push_all(&mut s, message.as_str());
                proof {
                    reveal_strlit("could not read git output: ");
                }
            },
        }
        s
    }
}

/// Which forge's special ref namespace a pull request's head lives under.
#[derive(Debug, Clone, Copy, PartialEq, Eq)]
pub enum PrRefKind {
    /// GitHub's `refs/pull/<n>/head`.
    GitHub,
    /// GitLab's `refs/merge-requests/<n>/head`.
    GitLab,
}

/// A pull request's head reference: which forge and which number. The only
/// thing a forced refspec is ever built from.
#[derive(Debug, Clone, Copy, PartialEq, Eq)]
pub struct PrRef {
    /// The forge namespace.
    pub kind: PrRefKind,
    /// The PR/MR number.
    pub number: u64,
}

impl PrRef {
    /// The head reference of PR `number` on `kind`'s forge.
    pub fn new(kind: PrRefKind, number: u64) -> (r: PrRef)
        ensures
            r.kind == kind,
            r.number == number,
    {
        PrRef { kind, number }
    }
}

} // verus!
