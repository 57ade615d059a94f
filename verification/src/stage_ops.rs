//! The staging seam between the UI and git: what a review snapshot holds,
//! the per-path staged states and staged-file list derived from porcelain
//! status, and the outcomes of the pull-request listing and checkout flows.
use vstd::prelude::*;

use crate::diff::{DiffParseError, FileChangeKind, FileDiff};
use crate::forge::{ForgeError, PullRequest, UnresolvedReason, forge_error_headline, headline_spec};
use crate::path_map::PathMap;
use crate::git::{
    CommitLogEntry,
    CommitLogRange,
    DiffTarget,
    FileStatus,
    GitError,
    LocalBranch,
    PrRef,
    RawFilePatch,
    RestoreScope,
    StatusCode,
    WorktreeEntry,
};

verus! {

/// Errors produced while building a [`ReviewSnapshot`].
#[derive(Debug, Clone, PartialEq, Eq)]
pub enum ReviewError {
    /// Running or parsing git failed.
    Git(GitError),
    /// A raw patch's hunks could not be parsed.
    Parse(DiffParseError),
}

/// Everything the Pull Requests tab's load can resolve to: a listing, or one
/// of the degraded states that gives the user a specific next step.
#[derive(Debug, Clone, PartialEq, Eq)]
pub enum PrFetchOutcome {
    /// No `origin` remote, or its URL doesn't parse to a hostname at all.
    NoForgeRemote,
    /// Neither/both CLIs hold credentials for the host.
    Unresolved { hostname: String, reason: UnresolvedReason },
    /// The resolved CLI isn't on `PATH`.
    CliMissing { cli: &'static str, hostname: String },
    /// The CLI is present but not authenticated for this host.
    Unauthenticated { cli: &'static str, hostname: String },
    /// The CLI ran and failed for a reason other than missing auth.
    ListFailed { message: String },
    /// A successful listing; `repo_label` is the `org/repo` slug (or the
    /// hostname when no slug can be read).
    Loaded { repo_label: String, prs: Vec<PullRequest> },
}

/// Everything a pull-request checkout needs, resolved before the fetch runs.
#[derive(Debug, Clone, PartialEq, Eq)]
pub struct PrCheckoutRequest {
    /// The PR's head reference.
    pub pr_ref: PrRef,
    /// The PR's base branch name.
    pub base_ref: String,
    /// The managed branch short name (`redquill/pr/<n>`).
    pub managed_branch: String,
    /// The managed worktree's path.
    pub worktree_path: String,
    /// Whether that worktree already exists (a reopen).
    pub worktree_exists: bool,
    /// The head SHA recorded by the last fetch, if any.
    pub stored_head_sha: Option<String>,
}

/// How a pull-request checkout ended.
#[derive(Debug, Clone, PartialEq, Eq)]
pub enum PrCheckoutOutcome {
    /// The managed branch is fetched and the worktree is ready; `moved` says
    /// the fetched head differs from the stored one.
    Ready { head_sha: String, moved: bool, worktree_path: String },
    /// The fetch failed and nothing local was destroyed; `stale_worktree`
    /// names a prior checkout that may still be reviewed.
    Failed { message: String, stale_worktree: Option<String> },
}

/// One file with staged changes, as the staging panel lists it.
#[derive(Debug, Clone, PartialEq, Eq)]
pub struct StagedFile {
    /// The file's current path, relative to the repo root.
    pub path: String,
    /// The index-side porcelain status letter.
    pub letter: char,
}

impl View for StagedFile {
    type V = (Seq<char>, char);

    open spec fn view(&self) -> (Seq<char>, char) {
        (self.path@, self.letter)
    }
}

/// A file's staged state: nothing staged, some of its changes staged, or
/// all of them.
#[derive(Debug, Clone, Copy, PartialEq, Eq, Structural)]
pub enum StagedState {
    /// Nothing staged for this path.
    Unstaged,
    /// The index differs from `HEAD` and the working tree from the index.
    Partial,
    /// The index differs from `HEAD` and the working tree matches it.
    Full,
}

impl Default for StagedState {
    fn default() -> (s: StagedState)
        ensures
            s == StagedState::Unstaged,
    {
        StagedState::Unstaged
    }
}

/// The staged state a porcelain status entry stands for.
pub open spec fn state_of(status: FileStatus) -> StagedState {
    if !status.staged_spec() {
        StagedState::Unstaged
    } else if status.unstaged_spec() {
        StagedState::Partial
    } else {
        StagedState::Full
    }
}

/// Derives a file's staged state from its porcelain status: `Unstaged`
/// without staged changes, `Partial` when it also has unstaged changes,
/// `Full` otherwise.
pub fn staged_state(status: &FileStatus) -> (s: StagedState)
    ensures
        s == state_of(*status),
{
    if !status.has_staged_changes() {
        StagedState::Unstaged
    } else if status.has_unstaged_changes() {
        StagedState::Partial
    } else {
        StagedState::Full
    }
}

/// The staged-file list of `status`: each entry with staged changes, in
/// order, as its path and index-side letter.
pub open spec fn staged_list(status: Seq<FileStatus>) -> Seq<(Seq<char>, char)>
    decreases status.len(),
{
    if status.len() == 0 {
        seq![]
    } else {
        let rest = staged_list(status.drop_last());
        let s = status.last();
        if s.staged_spec() {
            rest.push((s.path@, s.staged.letter_spec()))
        } else {
            rest
        }
    }
}

/// The view of a list of staged files.
pub open spec fn staged_files_view(files: Seq<StagedFile>) -> Seq<(Seq<char>, char)> {
    files.map_values(|f: StagedFile| f@)
}

/// The staged-file list derived from parsed porcelain status.
pub fn staged_from_status(status: &[FileStatus]) -> (out: Vec<StagedFile>)
    ensures
        staged_files_view(out@) == staged_list(status@),
{
    let mut out: Vec<StagedFile> = Vec::new();
    let mut i: usize = 0;
    while i < status.len()
        invariant
            i <= status.len(),
            staged_files_view(out@) == staged_list(status@.take(i as int)),
        decreases status.len() - i,
    {
        let s = &status[i];
        proof {
            assert(status@.take(i + 1).drop_last() =~= status@.take(i as int));
        }
        if s.has_staged_changes() {
            out.push(StagedFile { path: s.path.clone(), letter: s.staged.letter() });
        }
        i = i + 1;
        assert(staged_files_view(out@) =~= staged_list(status@.take(i as int)));
    }
    assert(status@.take(status.len() as int) =~= status@);
    out
}

/// A path-keyed map of staged states; a path that is absent reads as
/// [`StagedState::Unstaged`].
pub type StagedStates = PathMap<StagedState>;

/// The staged states of `status`: each entry with staged changes maps its
/// path to its state (a later entry for the same path replaces an earlier
/// one); entries without staged changes are left out.
pub open spec fn states_map(status: Seq<FileStatus>) -> Map<Seq<char>, StagedState>
    decreases status.len(),
{
    if status.len() == 0 {
        Map::empty()
    } else {
        let rest = states_map(status.drop_last());
        let s = status.last();
        if state_of(s) != StagedState::Unstaged {
            rest.insert(s.path@, state_of(s))
        } else {
            rest
        }
    }
}

/// The paths of a staged-file list.
pub open spec fn staged_paths(list: Seq<(Seq<char>, char)>) -> Set<Seq<char>> {
    list.map_values(|e: (Seq<char>, char)| e.0).to_set()
}

/// The staged-file list and the staged-states map of one status read cover
/// the same paths: a path is listed exactly when it has a staged state.
pub proof fn lemma_staged_list_matches_states(status: Seq<FileStatus>)
    ensures
        staged_paths(staged_list(status)) == states_map(status).dom(),
    decreases status.len(),
{
    if status.len() > 0 {
        let rest = status.drop_last();
        lemma_staged_list_matches_states(rest);
        let s = status.last();
        let l0 = staged_list(rest);
        let k0 = l0.map_values(|e: (Seq<char>, char)| e.0);
        if s.staged_spec() {
            let l1 = l0.push((s.path@, s.staged.letter_spec()));
            let k1 = l1.map_values(|e: (Seq<char>, char)| e.0);
            assert(k1 =~= k0.push(s.path@));
            assert forall|p: Seq<char>| #[trigger] k1.to_set().contains(p) == (k0.to_set().contains(p) || p == s.path@) by {
                if k0.to_set().contains(p) {
                    let i = choose|i: int| 0 <= i < k0.len() && k0[i] == p;
                    assert(k1[i] == p);
                }
                if p == s.path@ {
                    assert(k1[k0.len() as int] == p);
                }
                if k1.to_set().contains(p) && p != s.path@ {
                    let i = choose|i: int| 0 <= i < k1.len() && k1[i] == p;
                    assert(k0[i] == p);
                }
            }
            assert(staged_paths(staged_list(status)) =~= states_map(status).dom());
        } else {
            assert(staged_paths(staged_list(status)) =~= states_map(status).dom());
        }
    }
}

/// A path-keyed map of every file's staged state, for the paths that have
/// any staged changes (`Partial`/`Full`); `Unstaged` files are omitted.
pub fn staged_states_from_status(status: &[FileStatus]) -> (m: StagedStates)
    ensures
        m.wf(),
        m@ == states_map(status@),
{
    let mut m = StagedStates::new();
    let mut i: usize = 0;
    while i < status.len()
        invariant
            i <= status.len(),
            m.wf(),
            m@ == states_map(status@.take(i as int)),
        decreases status.len() - i,
    {
        proof {
            assert(status@.take(i + 1).drop_last() =~= status@.take(i as int));
        }
        let state = staged_state(&status[i]);
        if state != StagedState::Unstaged {
            m.insert(status[i].path.clone(), state);
        }
        i = i + 1;
    }
    assert(status@.take(status.len() as int) =~= status@);
    m
}

/// The change kind a fully-staged file's header-only section shows for its
/// index-side status code.
pub open spec fn staged_kind(code: StatusCode) -> FileChangeKind {
    match code {
        StatusCode::Added => FileChangeKind::Added,
        StatusCode::Deleted => FileChangeKind::Deleted,
        StatusCode::Renamed => FileChangeKind::Renamed,
        StatusCode::Copied => FileChangeKind::Copied,
        _ => FileChangeKind::Modified,
    }
}

/// Maps an index-side status code to the change kind of a fully-staged
/// file's synthetic section: added, deleted, renamed and copied keep their
/// kind; everything else displays as a modification.
pub fn kind_from_staged_code(code: StatusCode) -> (k: FileChangeKind)
    ensures
        k == staged_kind(code),
{
    match code {
        StatusCode::Added => FileChangeKind::Added,
        StatusCode::Deleted => FileChangeKind::Deleted,
        StatusCode::Renamed => FileChangeKind::Renamed,
        StatusCode::Copied => FileChangeKind::Copied,
        _ => FileChangeKind::Modified,
    }
}

/// `r` is the parse error `what`: what a backend answers for an operation
/// it does not provide.
pub open spec fn unavailable<T>(r: Result<T, GitError>, what: Seq<char>) -> bool {
    r matches Err(GitError::Parse(m)) && m@ == what
}

/// The git operations the UI drives staging and its modals through, kept
/// behind a trait so a session can run against a real repository or a
/// recording fake. Nothing is promised of what an implementation returns
/// (the callers state what holds whatever came back); what the provided
/// defaults answer is stated.
pub trait StageOps {
    /// The raw per-file patches of `target`'s diff; unavailable unless the
    /// backend provides it.
    fn diff(&self, target: &DiffTarget) -> (r: Result<Vec<RawFilePatch>, GitError>)
        default_ensures
            unavailable(r, "diff unavailable"@),
    {
        proof {
            reveal_strlit("diff unavailable");
        }
        Err(GitError::Parse(String::from_str("diff unavailable")))
    }

    /// Parsed porcelain status for every changed path.
    fn status(&self) -> Result<Vec<FileStatus>, GitError>;

    /// Stages `path` in its entirety.
    fn stage_file(&self, path: &str) -> Result<(), GitError>;

    /// Unstages `path`.
    fn unstage_file(&self, path: &str) -> Result<(), GitError>;

    /// Applies hunk `hunk_index` of `raw` to the index (`reverse` takes it
    /// back out of the index); unavailable unless the backend provides it.
    fn apply_hunk(&self, raw: &RawFilePatch, hunk_index: usize, reverse: bool) -> (r: Result<(), GitError>)
        default_ensures
            unavailable(r, "hunk staging unavailable"@),
    {
        proof {
            reveal_strlit("hunk staging unavailable");
        }
        Err(GitError::Parse(String::from_str("hunk staging unavailable")))
    }

    /// Applies the changed body lines `lines` (indices counted over the
    /// hunk's body from 0) of hunk `hunk_index` of `raw` to the index
    /// (`reverse` takes them back out); unavailable unless the backend
    /// provides it.
    fn apply_lines(
        &self,
        raw: &RawFilePatch,
        hunk_index: usize,
        lines: &[usize],
        reverse: bool,
    ) -> (r: Result<(), GitError>)
        default_ensures
            unavailable(r, "line staging unavailable"@),
    {
        proof {
            reveal_strlit("line staging unavailable");
        }
        Err(GitError::Parse(String::from_str("line staging unavailable")))
    }

    /// The working-tree file at `path`, as raw bytes; unavailable unless
    /// the backend provides it.
    fn read_worktree_file(&self, path: &str) -> (r: Option<Vec<u8>>)
        default_ensures
            r is None,
    {
        None
    }

    /// The text `git show <spec>` prints; unavailable unless the backend
    /// provides it.
    fn show_file(&self, spec: &str) -> (r: Option<String>)
        default_ensures
            r is None,
    {
        None
    }

    /// Switches the working tree to branch `name` (`git switch -- <name>`);
    /// unavailable unless the backend provides it.
    fn switch_branch(&self, name: &str) -> (r: Result<(), GitError>)
        default_ensures
            unavailable(r, "branch switch unavailable"@),
    {
        proof {
            reveal_strlit("branch switch unavailable");
        }
        Err(GitError::Parse(String::from_str("branch switch unavailable")))
    }

    /// Restores `paths` from `HEAD` in one invocation, over `scope`;
    /// unavailable unless the backend provides it.
    fn restore_paths(&self, paths: &[String], scope: RestoreScope) -> (r: Result<(), GitError>)
        default_ensures
            unavailable(r, "restore unavailable"@),
    {
        proof {
            reveal_strlit("restore unavailable");
        }
        Err(GitError::Parse(String::from_str("restore unavailable")))
    }

    /// Deletes the untracked file `path` from disk; unavailable unless the
    /// backend provides it.
    fn discard_untracked_file(&self, path: &str) -> (r: Result<(), GitError>)
        default_ensures
            unavailable(r, "discard unavailable"@),
    {
        proof {
            reveal_strlit("discard unavailable");
        }
        Err(GitError::Parse(String::from_str("discard unavailable")))
    }

    /// The local branches; unavailable unless the backend provides them.
    fn branch_list(&self) -> (r: Result<Vec<LocalBranch>, GitError>)
        default_ensures
            unavailable(r, "branch list unavailable"@),
    {
        proof {
            reveal_strlit("branch list unavailable");
        }
        Err(GitError::Parse(String::from_str("branch list unavailable")))
    }

    /// Every worktree; unavailable unless the backend provides them.
    fn worktree_list(&self) -> (r: Result<Vec<WorktreeEntry>, GitError>)
        default_ensures
            unavailable(r, "worktree list unavailable"@),
    {
        proof {
            reveal_strlit("worktree list unavailable");
        }
        Err(GitError::Parse(String::from_str("worktree list unavailable")))
    }

    /// The default base a review diffs against; unavailable unless the
    /// backend provides it.
    fn default_base(&self) -> (r: Result<String, GitError>)
        default_ensures
            unavailable(r, "default base unavailable"@),
    {
        proof {
            reveal_strlit("default base unavailable");
        }
        Err(GitError::Parse(String::from_str("default base unavailable")))
    }

    /// The commits of `range`, newest first; unavailable unless the backend
    /// provides them.
    fn commit_log_range(&self, range: &CommitLogRange) -> (r: Result<Vec<CommitLogEntry>, GitError>)
        default_ensures
            unavailable(r, "commit log range unavailable"@),
    {
        proof {
            reveal_strlit("commit log range unavailable");
        }
        Err(GitError::Parse(String::from_str("commit log range unavailable")))
    }

    /// `origin`'s open pull requests, or why they could not be listed; no
    /// forge remote unless the backend provides one.
    fn list_open_prs(&self) -> (o: PrFetchOutcome)
        default_ensures
            o is NoForgeRemote,
    {
        PrFetchOutcome::NoForgeRemote
    }

    /// Whether this backend's slow reads run on a background task (the
    /// caller then starts the read and hands its result back later) rather
    /// than inline.
    fn reads_off_thread(&self) -> (b: bool)
        default_ensures
            !b,
    {
        false
    }
}

/// Collapses one provider's listing `result` into an outcome: a listing on
/// success, labeled with the repository slug read from `origin` (the
/// hostname when none could be read); a missing CLI; and otherwise a fresh
/// credential check (`has_credentials`, run only here) telling "not logged
/// in" apart from any other failure, which is shown by its headline.
pub fn list_outcome<F: FnOnce() -> bool>(
    repo_slug: Option<String>,
    hostname: &str,
    cli: &'static str,
    result: Result<Vec<PullRequest>, ForgeError>,
    has_credentials: F,
) -> (o: PrFetchOutcome)
    requires
        has_credentials.requires(()),
    ensures
        match result {
            Ok(prs) => o matches PrFetchOutcome::Loaded { repo_label, prs: listed } && listed == prs
                && repo_label@ == match repo_slug {
                Some(slug) => slug@,
                None => hostname@,
            },
            Err(ForgeError::CliNotFound { cli: missing }) => o matches PrFetchOutcome::CliMissing {
                cli: c,
                hostname: h,
            } && c == missing && h@ == hostname@,
            Err(e) => exists|logged_in: bool|
                {
                    &&& #[trigger] has_credentials.ensures((), logged_in)
                    &&& if logged_in {
                        o matches PrFetchOutcome::ListFailed { message } && message@ == headline_spec(e)
                    } else {
                        o matches PrFetchOutcome::Unauthenticated { cli: c, hostname: h } && c == cli
                            && h@ == hostname@
                    }
                },
        },
{
    match result {
        Ok(prs) => {
            let repo_label = match repo_slug {
                Some(slug) => slug,
                None => crate::annotate::copy_str(hostname),
            };
            PrFetchOutcome::Loaded { repo_label, prs }
        },
        Err(ForgeError::CliNotFound { cli: missing }) => PrFetchOutcome::CliMissing {
            cli: missing,
            hostname: crate::annotate::copy_str(hostname),
        },
        Err(e) => {
            let logged_in = has_credentials();
            if logged_in {
                PrFetchOutcome::ListFailed { message: forge_error_headline(&e) }
            } else {
                PrFetchOutcome::Unauthenticated { cli, hostname: crate::annotate::copy_str(hostname) }
            }
        },
    }
}

/// Everything one review pass over a diff target needs: the parsed files,
/// the raw patch each came from (`None` for synthetic entries), the staged
/// files and the per-path staged states.
#[derive(Debug, Clone)]
pub struct ReviewSnapshot {
    /// Every file in the diff, sorted by path.
    pub files: Vec<FileDiff>,
    /// The raw patch each entry of `files` was parsed from, by index.
    pub patches: Vec<Option<RawFilePatch>>,
    /// Files with staged changes, per `git status`.
    pub staged: Vec<StagedFile>,
    /// Per-path staged states; a missing path is unstaged.
    pub staged_states: StagedStates,
}

} // verus!
