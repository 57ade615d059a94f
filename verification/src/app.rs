//! The application state the key handlers drive: which mode is active, the
//! staging panel's list and cursor, and the switcher and review-branch
//! modals, with the handlers that open, close and move through them.
use vstd::prelude::*;

use crate::annotate::AnnotationStore;
use crate::diff::FileDiff;
use crate::diff_view::{DiffViewState, files_fit};
use crate::path_map::PathMap;
use crate::review::ReviewStatus;
use crate::git::{
    CommitLogEntry,
    DiffTarget,
    FileStatus,
    GitError,
    LocalBranch,
    RawFilePatch,
    WorktreeEntry,
    git_error_text,
};
use crate::motion::{full_page, half_page, jump_bottom, jump_top, step, step_spec};
use crate::command_log::CommandLogEntry;
use crate::restore::RestoreRequest;
use crate::review_branch::ReviewBranchState;
use crate::review_launcher::LauncherTab;
use crate::stage_ops::{
    PrFetchOutcome,
    StageOps,
    StagedFile,
    StagedStates,
    staged_files_view,
    staged_from_status,
    staged_list,
    staged_states_from_status,
    states_map,
};
use crate::switcher::{
    SwitcherState,
    SwitcherTab,
    current_flags,
    first_or_zero,
    opt_str_view,
    worktree_flags,
};
use crate::text::push_all;

verus! {

/// The git panel's tabs.
#[derive(Debug, Clone, Copy, PartialEq, Eq, Structural)]
pub enum PanelTab {
    /// Working-tree changes.
    Changes,
    /// The commit log.
    History,
}

/// The mode a modal was opened from, so closing it can go back there.
#[derive(Debug, Clone, Copy, PartialEq, Eq, Structural)]
pub enum ModeOrigin {
    /// Normal diff navigation.
    Normal,
    /// A Visual selection anchored at `anchor`.
    Visual { anchor: usize },
    /// The git panel, at `cursor` on `tab`.
    Panel { cursor: usize, tab: PanelTab },
}

/// Which interaction mode the UI is in.
#[derive(Debug, Clone, Copy, PartialEq, Eq, Structural)]
pub enum Mode {
    /// Normal diff navigation.
    Normal,
    /// A Visual line selection anchored at `anchor`.
    Visual { anchor: usize },
    /// The staging panel has focus.
    Staging,
    /// The git panel has focus at `cursor` on `tab`.
    Panel { cursor: usize, tab: PanelTab },
    /// The branch/worktree switcher modal is open.
    Switcher,
    /// The review-branch modal is open.
    ReviewBranch,
    /// The Review launcher is open on `tab` at `cursor`, opened from `origin`.
    ReviewLauncher { tab: LauncherTab, cursor: usize, origin: ModeOrigin },
    /// An annotation is being composed.
    Compose,
    /// The annotation list has focus.
    List,
    /// A search query is being typed.
    Search,
    /// The restore confirmation modal is open, opened from `origin`.
    ConfirmRestore { origin: ModeOrigin },
}

/// The origin a mode is captured as: Visual and Panel keep their place,
/// every other mode comes back as Normal.
pub open spec fn capture_spec(mode: Mode) -> ModeOrigin {
    match mode {
        Mode::Visual { anchor } => ModeOrigin::Visual { anchor },
        Mode::Panel { cursor, tab } => ModeOrigin::Panel { cursor, tab },
        _ => ModeOrigin::Normal,
    }
}

/// The mode an origin restores.
pub open spec fn restore_spec(origin: ModeOrigin) -> Mode {
    match origin {
        ModeOrigin::Normal => Mode::Normal,
        ModeOrigin::Visual { anchor } => Mode::Visual { anchor },
        ModeOrigin::Panel { cursor, tab } => Mode::Panel { cursor, tab },
    }
}

impl ModeOrigin {
    /// Captures `mode` as the origin to restore later.
    pub fn capture(mode: Mode) -> (o: ModeOrigin)
        ensures
            o == capture_spec(mode),
    {
        match mode {
            Mode::Visual { anchor } => ModeOrigin::Visual { anchor },
            Mode::Panel { cursor, tab } => ModeOrigin::Panel { cursor, tab },
            _ => ModeOrigin::Normal,
        }
    }

    /// The mode this origin stands for.
    pub fn restore(self) -> (m: Mode)
        ensures
            m == restore_spec(self),
    {
        match self {
            ModeOrigin::Normal => Mode::Normal,
            ModeOrigin::Visual { anchor } => Mode::Visual { anchor },
            ModeOrigin::Panel { cursor, tab } => Mode::Panel { cursor, tab },
        }
    }
}

/// Restoring a captured origin gives back the mode it was captured from,
/// for the modes a modal can be opened from and returned to: Normal,
/// Visual (with its anchor) and the git panel (with its cursor and tab).
pub proof fn lemma_restore_captured(mode: Mode)
    requires
        mode is Normal || mode is Visual || mode is Panel,
    ensures
        restore_spec(capture_spec(mode)) == mode,
{
}

/// The view of an optional string.
pub open spec fn opt_string_view(o: Option<String>) -> Option<Seq<char>> {
    match o {
        Some(s) => Some(s@),
        None => None,
    }
}

/// The application state.
#[derive(Debug, Clone)]
pub struct App {
    /// The diff pane: the files under review laid out as sections.
    pub view: DiffViewState,
    /// The session's annotations.
    pub annotations: AnnotationStore,
    /// Each file's review status during a review session; a missing path is
    /// unreviewed.
    pub review_states: PathMap<ReviewStatus>,
    /// What the session diffs.
    pub target: DiffTarget,
    /// The repository root the session is rooted at, if known.
    pub repo_root: Option<String>,
    /// The active mode.
    pub mode: Mode,
    /// The footer message, if any.
    pub status_message: Option<String>,
    /// A motion count being typed, if any.
    pub motion_count: Option<usize>,
    /// The diff pane's height in rows: the page size of half/full-page
    /// motions in the panels and modals (20 until the first render).
    pub viewport_height: usize,
    /// The git panel's row count on its active tab.
    pub panel_rows: usize,
    /// The git panel tab last shown.
    pub last_panel_tab: PanelTab,
    /// Files with staged changes, as the staging panel lists them.
    pub staged: Vec<StagedFile>,
    /// Per-path staged states.
    pub staged_states: StagedStates,
    /// The staging panel's cursor.
    pub staging_cursor: usize,
    /// The switcher modal's state while it is open.
    pub switcher: Option<SwitcherState>,
    /// The review-branch modal's state while it is open.
    pub review_branch_modal: Option<ReviewBranchState>,
    /// The Review launcher tab last shown.
    pub last_launcher_tab: LauncherTab,
    /// The launcher's Branches tab: local branches not checked out here.
    pub launcher_branches: Vec<LocalBranch>,
    /// The launcher's Commits tab: commits ahead of the review base.
    pub launcher_commits: Vec<CommitLogEntry>,
    /// Whether the ahead-of-base commits have been read (possibly empty).
    pub launcher_commits_loaded: bool,
    /// The generation of the ahead-of-base read running in the background,
    /// if one is.
    pub launcher_commits_in_flight: Option<u64>,
    /// The current generation of ahead-of-base reads; a result from an
    /// earlier one is dropped.
    pub launcher_commits_generation: u64,
    /// Whether the Commits tab shows the whole log instead of the commits
    /// ahead of the base.
    pub launcher_all_commits: bool,
    /// The commit log the History tab has read so far.
    pub history: Vec<CommitLogEntry>,
    /// Whether the History tab's first page is still being read.
    pub history_loading: bool,
    /// The launcher's Pull Requests tab: the latest listing outcome.
    pub launcher_prs: Option<PrFetchOutcome>,
    /// The generation of the pull-request listing running in the
    /// background, if one is.
    pub launcher_prs_in_flight: Option<u64>,
    /// The current generation of pull-request listings.
    pub launcher_prs_generation: u64,
    /// Whether a pull-request checkout is running.
    pub pr_checkout_in_flight: bool,
    /// The raw patch each file was parsed from, by index (`None` for a
    /// synthetic entry, such as an untracked file's).
    pub patches: Vec<Option<RawFilePatch>>,
    /// The paths of the files git does not track.
    pub untracked_paths: Vec<String>,
    /// What the restore modal asks about while it is open.
    pub restore_request: Option<RestoreRequest>,
    /// Every git command a gesture ran, oldest first.
    pub command_log: Vec<CommandLogEntry>,
    /// Whether the review in progress is a pull-request checkout whose last
    /// fetch failed, so it may be out of date.
    pub review_stale: bool,
}

/// `a` followed by `b`.
pub(crate) fn concat2(a: &str, b: &str) -> (s: String)
    ensures
        s@ == a@ + b@,
{
    let mut s = String::new();
    push_all(&mut s, a);
    push_all(&mut s, b);
    s
}

/// `a`, `b` and `c`, in order.
pub(crate) fn concat3(a: &str, b: &str, c: &str) -> (s: String)
    ensures
        s@ == a@ + b@ + c@,
{
    let mut s = String::new();
    push_all(&mut s, a);
    push_all(&mut s, b);
    push_all(&mut s, c);
    s
}

/// The footer message an unstage of `path` that gave back `result` ends
/// with: `unstaged <path>`, or the git error.
pub open spec fn unstage_text(path: Seq<char>, result: Result<(), GitError>) -> Seq<char> {
    match result {
        Ok(_) => "unstaged "@ + path,
        Err(e) => git_error_text(e),
    }
}

/// A list cursor clamped to a list of `n` rows: unchanged while in range,
/// the last row past the end, 0 on an empty list.
pub open spec fn clamp_cursor(c: int, n: int) -> int {
    if n == 0 {
        0
    } else if c < n {
        c
    } else {
        n - 1
    }
}

/// The message shown when staging is asked for without a git backend.
pub open spec fn no_backend_staging_text() -> Seq<char> {
    "staging unavailable (no git backend)"@
}

/// The message shown when the switcher is asked for without a git backend.
pub open spec fn no_backend_switcher_text() -> Seq<char> {
    "switcher unavailable (no git backend)"@
}

/// The message shown when the review-branch modal is asked for without a
/// git backend.
pub open spec fn no_backend_review_text() -> Seq<char> {
    "review-branch unavailable (no git backend)"@
}

/// The branches of `bs` that are not checked out here, in order.
pub open spec fn not_current(bs: Seq<LocalBranch>) -> Seq<LocalBranch>
    decreases bs.len(),
{
    if bs.len() == 0 {
        seq![]
    } else if bs.last().is_current {
        not_current(bs.drop_last())
    } else {
        not_current(bs.drop_last()).push(bs.last())
    }
}

/// The branches of `all` that are not checked out here, in order.
fn branches_not_current(all: &Vec<LocalBranch>) -> (out: Vec<LocalBranch>)
    ensures
        out@ == not_current(all@),
{
    let mut out: Vec<LocalBranch> = Vec::new();
    let mut i: usize = 0;
    while i < all.len()
        invariant
            i <= all.len(),
            out@ == not_current(all@.take(i as int)),
        decreases all.len() - i,
    {
        proof {
            assert(all@.take(i + 1).drop_last() =~= all@.take(i as int));
        }
        if !all[i].is_current {
            out.push(all[i].duplicate());
        }
        i = i + 1;
    }
    assert(all@.take(all.len() as int) =~= all@);
    out
}

/// `new` is `old` with its footer message set, then `status` applied
/// (see [`status_applied`]).
pub open spec fn reported_then_applied(old: App, new: App, status: Result<Vec<FileStatus>, GitError>) -> bool {
    status_applied(App { status_message: new.status_message, ..old }, new, status)
}

/// How a `git status` read `status` left `new` from `old`: on success the
/// staged-file list and staged states are the ones it yields and the
/// cursor is clamped to the new list, nothing else changing; on failure
/// nothing changes.
pub open spec fn status_applied(old: App, new: App, status: Result<Vec<FileStatus>, GitError>) -> bool {
    match status {
        Ok(st) => {
            &&& staged_files_view(new.staged@) == staged_list(st@)
            &&& new.staged_states@ == states_map(st@)
            &&& new.staging_cursor == (if new.staged@.len() == 0 {
                0
            } else if old.staging_cursor < new.staged@.len() {
                old.staging_cursor as int
            } else {
                new.staged@.len() - 1
            })
            &&& new == (App {
                staged: new.staged,
                staged_states: new.staged_states,
                staging_cursor: new.staging_cursor,
                ..old
            })
        },
        Err(_) => new == old,
    }
}

impl App {
    /// A fresh session over `files`: the working tree, in Normal mode, with
    /// nothing staged, annotated or reviewed, every file expanded, and no
    /// modal open.
    pub fn new(files: Vec<FileDiff>) -> (app: App)
        requires
            files_fit(files@),
        ensures
            app.wf(),
            app.view.files == files,
            app.view.shows(seq![]),
            app.view.cursor == 0,
            forall|i: int| 0 <= i < files@.len() ==> !(#[trigger] app.view.collapsed@[i]),
            app.annotations.items().len() == 0,
            app.review_states@ == Map::<Seq<char>, ReviewStatus>::empty(),
            app.target == DiffTarget::WorkingTree,
            app.repo_root.is_none(),
            app.mode == Mode::Normal,
            app.status_message.is_none(),
            app.motion_count.is_none(),
            app.viewport_height == 20,
            app.panel_rows == 0,
            app.last_panel_tab == PanelTab::Changes,
            app.staged@.len() == 0,
            app.staged_states.wf(),
            app.staged_states@ == Map::<Seq<char>, crate::stage_ops::StagedState>::empty(),
            app.staging_cursor == 0,
            app.switcher.is_none(),
            app.review_branch_modal.is_none(),
            app.last_launcher_tab == LauncherTab::Branches,
            app.launcher_branches@.len() == 0,
            app.launcher_commits@.len() == 0,
            !app.launcher_commits_loaded,
            app.launcher_commits_in_flight.is_none(),
            app.launcher_commits_generation == 0,
            !app.launcher_all_commits,
            app.history@.len() == 0,
            !app.history_loading,
            app.launcher_prs.is_none(),
            app.launcher_prs_in_flight.is_none(),
            app.launcher_prs_generation == 0,
            !app.pr_checkout_in_flight,
            app.patches@.len() == 0,
            app.untracked_paths@.len() == 0,
            app.restore_request.is_none(),
            app.command_log@.len() == 0,
            !app.review_stale,
    {
        App {
            view: DiffViewState::new(files),
            annotations: AnnotationStore::new(),
            review_states: PathMap::new(),
            target: DiffTarget::WorkingTree,
            repo_root: None,
            mode: Mode::Normal,
            status_message: None,
            motion_count: None,
            viewport_height: 20,
            panel_rows: 0,
            last_panel_tab: PanelTab::Changes,
            staged: Vec::new(),
            staged_states: StagedStates::new(),
            staging_cursor: 0,
            switcher: None,
            review_branch_modal: None,
            last_launcher_tab: LauncherTab::Branches,
            launcher_branches: Vec::new(),
            launcher_commits: Vec::new(),
            launcher_commits_loaded: false,
            launcher_commits_in_flight: None,
            launcher_commits_generation: 0,
            launcher_all_commits: false,
            history: Vec::new(),
            history_loading: false,
            launcher_prs: None,
            launcher_prs_in_flight: None,
            launcher_prs_generation: 0,
            pr_checkout_in_flight: false,
            patches: Vec::new(),
            untracked_paths: Vec::new(),
            restore_request: None,
            command_log: Vec::new(),
            review_stale: false,
        }
    }

    /// The session's invariants: the diff pane's layout is consistent, its
    /// files fit, and the annotation store and path maps are well formed.
    pub open spec fn wf(&self) -> bool {
        &&& self.view.wf()
        &&& files_fit(self.view.files@)
        &&& self.annotations.wf()
        &&& self.staged_states.wf()
        &&& self.review_states.wf()
    }

    /// The footer message's text, if any.
    pub open spec fn message(&self) -> Option<Seq<char>> {
        opt_string_view(self.status_message)
    }

    /// Sets the footer message.
    pub fn set_status_message(&mut self, message: String)
        ensures
            *final(self) == (App { status_message: Some(message), ..*old(self) }),
    {
        self.status_message = Some(message);
    }

    /// Whether a branch review session is running.
    pub fn in_review_session(&self) -> (b: bool)
        ensures
            b == (self.target is Review),
    {
        self.target.is_review()
    }

    /// The git panel's cursor row: its own cursor while it has focus, the
    /// top row otherwise.
    pub open spec fn panel_cursor_spec(&self) -> usize {
        match self.mode {
            Mode::Panel { cursor, .. } => cursor,
            _ => 0,
        }
    }

    /// The git panel's cursor row (see [`App::panel_cursor_spec`]).
    pub fn panel_cursor(&self) -> (c: usize)
        ensures
            c == self.panel_cursor_spec(),
    {
        match self.mode {
            Mode::Panel { cursor, .. } => cursor,
            _ => 0,
        }
    }

    /// The git panel at `cursor`, clamped to its current rows, on the tab
    /// last shown.
    pub open spec fn panel_mode_at(&self, cursor: usize) -> Mode {
        Mode::Panel {
            cursor: if self.panel_rows == 0 {
                0
            } else if cursor < self.panel_rows {
                cursor
            } else {
                (self.panel_rows - 1) as usize
            },
            tab: self.last_panel_tab,
        }
    }

    fn return_to_panel(&mut self, cursor: usize)
        ensures
            *final(self) == (App { mode: old(self).panel_mode_at(cursor), ..*old(self) }),
    {
        let len = self.panel_rows;
        let c = if len == 0 {
            0
        } else if cursor < len {
            cursor
        } else {
            len - 1
        };
        self.mode = Mode::Panel { cursor: c, tab: self.last_panel_tab };
    }

    // -- The staging panel -------------------------------------------------

    /// Closes the staging panel, returning to Normal mode.
    pub fn close_staging(&mut self)
        ensures
            *final(self) == (App { mode: Mode::Normal, ..*old(self) }),
    {
        self.mode = Mode::Normal;
    }

    /// The staging panel's cursor after stepping `delta` rows.
    pub open spec fn staging_stepped(&self, delta: int, down: bool) -> App {
        App {
            staging_cursor: step_spec(
                self.staging_cursor as int,
                self.staged@.len() as int,
                delta,
                down,
            ) as usize,
            ..*self
        }
    }

    /// Moves the staging panel's focus down one row, clamped at the last; a
    /// no-op on an empty list.
    pub fn staging_move_down(&mut self)
        ensures
            *final(self) == (if old(self).staged@.len() == 0 {
                *old(self)
            } else {
                old(self).staging_stepped(1, true)
            }),
    {
        let len = self.staged.len();
        if len > 0 {
            self.staging_cursor = step(self.staging_cursor, len, 1, true);
        }
    }

    /// Moves the staging panel's focus up one row, clamped at the first.
    pub fn staging_move_up(&mut self)
        ensures
            *final(self) == (App {
                staging_cursor: (if old(self).staging_cursor > 0 {
                    old(self).staging_cursor - 1
                } else {
                    0
                }) as usize,
                ..*old(self)
            }),
    {
        if self.staging_cursor > 0 {
            self.staging_cursor = self.staging_cursor - 1;
        }
    }

    /// Moves the staging panel's focus down half a viewport.
    pub fn staging_half_page_down(&mut self)
        ensures
            *final(self) == old(self).staging_stepped(
                if old(self).viewport_height / 2 == 0 {
                    1
                } else {
                    (old(self).viewport_height / 2) as int
                },
                true,
            ),
    {
        let delta = half_page(self.viewport_height);
        self.staging_cursor = step(self.staging_cursor, self.staged.len(), delta, true);
    }

    /// Moves the staging panel's focus up half a viewport.
    pub fn staging_half_page_up(&mut self)
        ensures
            *final(self) == old(self).staging_stepped(
                if old(self).viewport_height / 2 == 0 {
                    1
                } else {
                    (old(self).viewport_height / 2) as int
                },
                false,
            ),
    {
        let delta = half_page(self.viewport_height);
        self.staging_cursor = step(self.staging_cursor, self.staged.len(), delta, false);
    }

    /// Moves the staging panel's focus down a full viewport.
    pub fn staging_full_page_down(&mut self)
        ensures
            *final(self) == old(self).staging_stepped(
                if old(self).viewport_height == 0 {
                    1
                } else {
                    old(self).viewport_height as int
                },
                true,
            ),
    {
        let delta = full_page(self.viewport_height);
        self.staging_cursor = step(self.staging_cursor, self.staged.len(), delta, true);
    }

    /// Moves the staging panel's focus up a full viewport.
    pub fn staging_full_page_up(&mut self)
        ensures
            *final(self) == old(self).staging_stepped(
                if old(self).viewport_height == 0 {
                    1
                } else {
                    old(self).viewport_height as int
                },
                false,
            ),
    {
        let delta = full_page(self.viewport_height);
        self.staging_cursor = step(self.staging_cursor, self.staged.len(), delta, false);
    }

    /// Jumps the staging panel's focus to the first entry.
    pub fn staging_jump_to_top(&mut self)
        ensures
            *final(self) == (App { staging_cursor: 0, ..*old(self) }),
    {
        self.staging_cursor = jump_top();
    }

    /// Jumps the staging panel's focus to the last entry (0 on an empty
    /// list).
    pub fn staging_jump_to_bottom(&mut self)
        ensures
            *final(self) == (App {
                staging_cursor: (if old(self).staged@.len() == 0 {
                    0
                } else {
                    old(self).staged@.len() - 1
                }) as usize,
                ..*old(self)
            }),
    {
        self.staging_cursor = jump_bottom(self.staged.len());
    }

    /// The `staged` index the staging panel's cursor is on, if any.
    pub fn staging_real_index(&self) -> (r: Option<usize>)
        ensures
            r == (if self.staging_cursor < self.staged@.len() {
                Some(self.staging_cursor)
            } else {
                None
            }),
    {
        if self.staging_cursor < self.staged.len() {
            Some(self.staging_cursor)
        } else {
            None
        }
    }

    /// Applies a fresh `git status` read: on success the staged-file list
    /// and staged states are replaced by the ones it yields and the cursor is
    /// clamped to the new list; on failure everything is kept.
    pub fn apply_status(&mut self, status: Result<Vec<FileStatus>, GitError>)
        requires
            old(self).staged_states.wf(),
        ensures
            final(self).staged_states.wf(),
            status_applied(*old(self), *final(self), status),
    {
        match status {
            Ok(st) => {
                self.staged = staged_from_status(st.as_slice());
                self.staged_states = staged_states_from_status(st.as_slice());
                let len = self.staged.len();
                self.staging_cursor = if len == 0 {
                    0
                } else if self.staging_cursor < len {
                    self.staging_cursor
                } else {
                    len - 1
                };
            },
            Err(_) => {},
        }
    }

    /// Reports how unstaging `path` went: `"unstaged <path>"` on success,
    /// the git error's text on failure. Returns whether it succeeded.
    pub fn report_unstage(&mut self, path: &str, result: Result<(), GitError>) -> (ok: bool)
        ensures
            ok == (result is Ok),
            *final(self) == (App { status_message: final(self).status_message, ..*old(self) }),
            final(self).message() == Some(unstage_text(path@, result)),
    {
        match result {
            Ok(()) => {
                let m = concat2("unstaged ", path);
                proof {
                    reveal_strlit("unstaged ");
                }
                self.set_status_message(m);
                true
            },
            Err(e) => {
                self.set_status_message(e.message());
                false
            },
        }
    }

    /// The path of the staging panel's focused entry: the staged file at the
    /// cursor; none when the cursor is on no entry.
    pub fn focused_staged_path(&self) -> (p: Option<String>)
        ensures
            match p {
                Some(s) => self.staging_cursor < self.staged@.len() && s@ == self.staged@[self.staging_cursor as int].path@,
                None => self.staging_cursor >= self.staged@.len(),
            },
    {
        match self.staging_real_index() {
            Some(i) => Some(self.staged[i].path.clone()),
            None => None,
        }
    }

    /// Unstages the staging panel's focused file through `ops`, then re-reads
    /// the staged list. A no-op when the cursor is on no entry; without a
    /// backend only the footer message changes. Whatever git answers, the
    /// mode and everything outside the staging panel stay as they were and
    /// a footer message is set.
    pub fn unstage_focused_file<O: StageOps>(&mut self, ops: Option<&O>)
        requires
            old(self).staged_states.wf(),
        ensures
            final(self).staged_states.wf(),
            old(self).staging_cursor >= old(self).staged@.len() ==> *final(self) == *old(self),
            old(self).staging_cursor < old(self).staged@.len() && ops is None ==> {
                &&& *final(self) == (App { status_message: final(self).status_message, ..*old(self) })
                &&& final(self).message() == Some(no_backend_staging_text())
            },
            old(self).staging_cursor < old(self).staged@.len() && ops is Some ==> exists|
                r: Result<(), GitError>,
            |
                {
                    &&& final(self).message() == Some(
                        #[trigger] unstage_text(
                            old(self).staged@[old(self).staging_cursor as int].path@,
                            r,
                        ),
                    )
                    &&& r is Err ==> *final(self) == (App {
                        status_message: final(self).status_message,
                        ..*old(self)
                    })
                    &&& r is Ok ==> exists|status: Result<Vec<FileStatus>, GitError>|
                        #[trigger] reported_then_applied(*old(self), *final(self), status)
                },
            old(self).staging_cursor < old(self).staged@.len() ==> {
                &&& final(self).message() is Some
                &&& *final(self) == (App {
                    staged: final(self).staged,
                    staged_states: final(self).staged_states,
                    staging_cursor: final(self).staging_cursor,
                    status_message: final(self).status_message,
                    ..*old(self)
                })
                &&& final(self).staged@.len() == 0 ==> final(self).staging_cursor == 0
                &&& final(self).staged@.len() > 0 ==> final(self).staging_cursor
                    < final(self).staged@.len() || final(self).staging_cursor
                    == old(self).staging_cursor
            },
    {
        let path = match self.focused_staged_path() {
            Some(p) => p,
            None => return ,
        };
        match ops {
            None => {
                let m = String::from_str("staging unavailable (no git backend)");
                proof {
                    reveal_strlit("staging unavailable (no git backend)");
                }
                self.set_status_message(m);
            },
            Some(ops) => {
                let result = ops.unstage_file(path.as_str());
                let ghost r = result;
                let ok = self.report_unstage(path.as_str(), result);
                assert(self.message() == Some(unstage_text(path@, r)));
                if ok {
                    let ghost reported = *self;
                    let status = ops.status();
                    let ghost st = status;
                    self.apply_status(status);
                    assert(status_applied(reported, *self, st));
                    assert(reported_then_applied(*old(self), *self, st));
                }
            },
        }
    }

    /// Re-reads the staged-file list and staged states through `ops`,
    /// keeping the previous values when there is no backend or the read
    /// fails.
    pub fn refresh_staged_list<O: StageOps>(&mut self, ops: Option<&O>)
        requires
            old(self).staged_states.wf(),
        ensures
            final(self).staged_states.wf(),
            ops is None ==> *final(self) == *old(self),
            *final(self) == (App {
                staged: final(self).staged,
                staged_states: final(self).staged_states,
                staging_cursor: final(self).staging_cursor,
                ..*old(self)
            }),
            *final(self) == *old(self) || final(self).staging_cursor == clamp_cursor(
                old(self).staging_cursor as int,
                final(self).staged@.len() as int,
            ),
            ops is Some ==> exists|status: Result<Vec<FileStatus>, GitError>|
                #[trigger] status_applied(*old(self), *final(self), status),
    {
        if let Some(ops) = ops {
            let status = ops.status();
            self.apply_status(status);
        }
    }

    // -- The switcher modal -------------------------------------------------

    /// Opens the switcher over the branch and worktree lists a backend
    /// read: on two successful reads the switcher opens on them (see
    /// [`SwitcherState::new`]), capturing the git panel's cursor, and any
    /// motion count is dropped; when a read failed, only the footer message
    /// is set, to the first failure's text after `"switcher: "`.
    pub fn finish_open_switcher(
        &mut self,
        branches: Result<Vec<LocalBranch>, GitError>,
        worktrees: Result<Vec<WorktreeEntry>, GitError>,
    )
        ensures
            match (branches, worktrees) {
                (Ok(b), Ok(w)) => {
                    &&& final(self).switcher matches Some(s) && {
                        &&& s.tab == SwitcherTab::Branches
                        &&& s.branches == b
                        &&& s.worktrees == w
                        &&& s.branch_cursor == first_or_zero(current_flags(b@))
                        &&& s.worktree_cursor == first_or_zero(
                            worktree_flags(w@, opt_string_view(old(self).repo_root)),
                        )
                        &&& s.panel_cursor == old(self).panel_cursor_spec()
                    }
                    &&& *final(self) == (App {
                        mode: Mode::Switcher,
                        switcher: final(self).switcher,
                        motion_count: None,
                        ..*old(self)
                    })
                },
                (Err(e), _) => {
                    &&& *final(self) == (App { status_message: final(self).status_message, ..*old(self) })
                    &&& final(self).message() == Some("switcher: "@ + git_error_text(e))
                },
                (Ok(_), Err(e)) => {
                    &&& *final(self) == (App { status_message: final(self).status_message, ..*old(self) })
                    &&& final(self).message() == Some("switcher: "@ + git_error_text(e))
                },
            },
    {
        proof {
            reveal_strlit("switcher: ");
        }
        match (branches, worktrees) {
            (Ok(b), Ok(w)) => {
                let panel_cursor = self.panel_cursor();
                let root: Option<&str> = match &self.repo_root {
                    Some(r) => Some(r.as_str()),
                    None => None,
                };
                assert(opt_str_view(root) == opt_string_view(self.repo_root));
                self.switcher = Some(SwitcherState::new(b, w, root, panel_cursor));
                self.mode = Mode::Switcher;
                self.motion_count = None;
            },
            (Err(e), _) => {
                let m = concat2("switcher: ", e.message().as_str());
                self.set_status_message(m);
            },
            (Ok(_), Err(e)) => {
                let m = concat2("switcher: ", e.message().as_str());
                self.set_status_message(m);
            },
        }
    }

    /// Opens the branch/worktree switcher over the lists `ops` reads (see
    /// [`App::finish_open_switcher`]). Without a backend only the footer
    /// message is set.
    pub fn open_switcher<O: StageOps>(&mut self, ops: Option<&O>)
        ensures
            ops is None ==> {
                &&& *final(self) == (App { status_message: final(self).status_message, ..*old(self) })
                &&& final(self).message() == Some(no_backend_switcher_text())
            },
            ({
                &&& *final(self) == (App { status_message: final(self).status_message, ..*old(self) })
                &&& final(self).status_message is Some
            }) || ({
                &&& final(self).switcher matches Some(s) && s.panel_cursor
                    == old(self).panel_cursor_spec() && s.tab == SwitcherTab::Branches
                &&& *final(self) == (App {
                    mode: Mode::Switcher,
                    switcher: final(self).switcher,
                    motion_count: None,
                    ..*old(self)
                })
            }),
    {
        match ops {
            Some(o) => {
                let branches = o.branch_list();
                let worktrees = o.worktree_list();
                self.finish_open_switcher(branches, worktrees);
            },
            None => {
                let m = String::from_str("switcher unavailable (no git backend)");
                proof {
                    reveal_strlit("switcher unavailable (no git backend)");
                }
                self.set_status_message(m);
            },
        }
    }

    /// Closes the switcher, returning to the git panel at the cursor row it
    /// had when the switcher opened (row 0 if it never did), clamped to the
    /// panel's current rows.
    pub fn close_switcher(&mut self)
        ensures
            *final(self) == (App {
                switcher: None,
                mode: old(self).panel_mode_at(
                    match old(self).switcher {
                        Some(s) => s.panel_cursor,
                        None => 0,
                    },
                ),
                ..*old(self)
            }),
    {
        let cursor = match self.switcher.take() {
            Some(s) => s.panel_cursor,
            None => 0,
        };
        self.return_to_panel(cursor);
    }

    /// Switches the switcher's tab; a no-op if it isn't open.
    pub fn switcher_toggle_tab(&mut self)
        ensures
            *final(self) == (App {
                switcher: match old(self).switcher {
                    Some(s) => Some(
                        SwitcherState {
                            tab: match s.tab {
                                SwitcherTab::Branches => SwitcherTab::Worktrees,
                                SwitcherTab::Worktrees => SwitcherTab::Branches,
                            },
                            ..s
                        },
                    ),
                    None => None,
                },
                ..*old(self)
            }),
    {
        if let Some(s) = self.switcher.as_mut() {
            s.toggle_tab();
        }
    }

    /// Moves the switcher's active cursor down one row; a no-op if it isn't
    /// open.
    pub fn switcher_move_down(&mut self)
        ensures
            *final(self) == (App {
                switcher: match old(self).switcher {
                    Some(s) => Some(
                        s.with_active_cursor(
                            step_spec(s.active_cursor(), s.active_len(), 1, true) as usize,
                        ),
                    ),
                    None => None,
                },
                ..*old(self)
            }),
    {
        if let Some(s) = self.switcher.as_mut() {
            s.move_down();
        }
    }

    /// Moves the switcher's active cursor up one row; a no-op if it isn't
    /// open.
    pub fn switcher_move_up(&mut self)
        ensures
            *final(self) == (App {
                switcher: match old(self).switcher {
                    Some(s) => Some(
                        s.with_active_cursor(
                            (if s.active_cursor() > 0 {
                                s.active_cursor() - 1
                            } else {
                                0
                            }) as usize,
                        ),
                    ),
                    None => None,
                },
                ..*old(self)
            }),
    {
        if let Some(s) = self.switcher.as_mut() {
            s.move_up();
        }
    }

    /// The switcher with its active cursor stepped `delta` rows (down or
    /// up), clamped to the active tab; none when it is not open.
    pub open spec fn switcher_stepped(&self, delta: int, down: bool) -> Option<SwitcherState> {
        match self.switcher {
            Some(s) => Some(
                s.with_active_cursor(step_spec(s.active_cursor(), s.active_len(), delta, down) as usize),
            ),
            None => None,
        }
    }

    /// Moves the switcher's active cursor down half a viewport; a no-op if
    /// it isn't open.
    pub fn switcher_half_page_down(&mut self)
        ensures
            *final(self) == (App {
                switcher: old(self).switcher_stepped(
                    if old(self).viewport_height / 2 == 0 {
                        1
                    } else {
                        (old(self).viewport_height / 2) as int
                    },
                    true,
                ),
                ..*old(self)
            }),
    {
        let h = self.viewport_height;
        if let Some(s) = self.switcher.as_mut() {
            s.half_page_down(h);
        }
    }

    /// Moves the switcher's active cursor up half a viewport; a no-op if it
    /// isn't open.
    pub fn switcher_half_page_up(&mut self)
        ensures
            *final(self) == (App {
                switcher: old(self).switcher_stepped(
                    if old(self).viewport_height / 2 == 0 {
                        1
                    } else {
                        (old(self).viewport_height / 2) as int
                    },
                    false,
                ),
                ..*old(self)
            }),
    {
        let h = self.viewport_height;
        if let Some(s) = self.switcher.as_mut() {
            s.half_page_up(h);
        }
    }

    /// Moves the switcher's active cursor down a full viewport; a no-op if
    /// it isn't open.
    pub fn switcher_full_page_down(&mut self)
        ensures
            *final(self) == (App {
                switcher: old(self).switcher_stepped(
                    if old(self).viewport_height == 0 {
                        1
                    } else {
                        old(self).viewport_height as int
                    },
                    true,
                ),
                ..*old(self)
            }),
    {
        let h = self.viewport_height;
        if let Some(s) = self.switcher.as_mut() {
            s.full_page_down(h);
        }
    }

    /// Moves the switcher's active cursor up a full viewport; a no-op if it
    /// isn't open.
    pub fn switcher_full_page_up(&mut self)
        ensures
            *final(self) == (App {
                switcher: old(self).switcher_stepped(
                    if old(self).viewport_height == 0 {
                        1
                    } else {
                        old(self).viewport_height as int
                    },
                    false,
                ),
                ..*old(self)
            }),
    {
        let h = self.viewport_height;
        if let Some(s) = self.switcher.as_mut() {
            s.full_page_up(h);
        }
    }

    // -- The review-branch modal --------------------------------------------

    /// The branch under review, if a review session is running.
    pub fn review_branch(&self) -> (b: Option<&String>)
        ensures
            match self.target {
                DiffTarget::Review { branch, .. } => b == Some(&branch),
                _ => b is None,
            },
    {
        match &self.target {
            DiffTarget::Review { branch, .. } => Some(branch),
            _ => None,
        }
    }

    /// Opens the review-branch modal over a branch-list read: on success the
    /// modal opens on the branches not checked out here, cursor at the top,
    /// capturing the git panel's cursor; on failure only the footer message
    /// is set, to the error's text after `"review-branch: "`.
    pub fn finish_open_review_branch_modal(&mut self, branches: Result<Vec<LocalBranch>, GitError>)
        ensures
            match branches {
                Ok(b) => {
                    &&& final(self).review_branch_modal matches Some(s) && {
                        &&& s.branches@ == not_current(b@)
                        &&& s.cursor == 0
                        &&& s.panel_cursor == old(self).panel_cursor_spec()
                    }
                    &&& *final(self) == (App {
                        mode: Mode::ReviewBranch,
                        review_branch_modal: final(self).review_branch_modal,
                        ..*old(self)
                    })
                },
                Err(e) => {
                    &&& *final(self) == (App { status_message: final(self).status_message, ..*old(self) })
                    &&& final(self).message() == Some("review-branch: "@ + git_error_text(e))
                },
            },
    {
        match branches {
            Ok(all) => {
                let kept = branches_not_current(&all);
                let panel_cursor = self.panel_cursor();
                self.review_branch_modal = Some(ReviewBranchState::new(kept, panel_cursor));
                self.mode = Mode::ReviewBranch;
            },
            Err(e) => {
                let m = concat2("review-branch: ", e.message().as_str());
                proof {
                    reveal_strlit("review-branch: ");
                }
                self.set_status_message(m);
            },
        }
    }

    /// Opens the review-branch modal over the local branches `ops` reads
    /// (see [`App::finish_open_review_branch_modal`]). Refused with a footer
    /// message, and nothing else changed, during a review session or
    /// without a backend.
    pub fn open_review_branch_modal<O: StageOps>(&mut self, ops: Option<&O>)
        ensures
            old(self).target is Review ==> {
                &&& *final(self) == (App { status_message: final(self).status_message, ..*old(self) })
                &&& final(self).message() == Some(
                    "already reviewing "@ + old(self).target->Review_branch@
                        + " \u{2014} finish or pause first"@,
                )
            },
            !(old(self).target is Review) && ops is None ==> {
                &&& *final(self) == (App { status_message: final(self).status_message, ..*old(self) })
                &&& final(self).message() == Some(no_backend_review_text())
            },
            ({
                &&& *final(self) == (App { status_message: final(self).status_message, ..*old(self) })
                &&& final(self).status_message is Some
            }) || ({
                &&& final(self).review_branch_modal matches Some(s) && s.cursor == 0
                    && s.panel_cursor == old(self).panel_cursor_spec()
                &&& *final(self) == (App {
                    mode: Mode::ReviewBranch,
                    review_branch_modal: final(self).review_branch_modal,
                    ..*old(self)
                })
            }),
    {
        if let Some(branch) = self.review_branch() {
            let m = concat3("already reviewing ", branch.as_str(), " \u{2014} finish or pause first");
            proof {
                reveal_strlit("already reviewing ");
                reveal_strlit(" \u{2014} finish or pause first");
            }
            self.set_status_message(m);
            return ;
        }
        match ops {
            Some(o) => {
                let branches = o.branch_list();
                self.finish_open_review_branch_modal(branches);
            },
            None => {
                let m = String::from_str("review-branch unavailable (no git backend)");
                proof {
                    reveal_strlit("review-branch unavailable (no git backend)");
                }
                self.set_status_message(m);
            },
        }
    }

    /// Closes the review-branch modal, returning to the git panel at the
    /// cursor row it had when the modal opened (row 0 if it never did),
    /// clamped to the panel's current rows.
    pub fn close_review_branch_modal(&mut self)
        ensures
            *final(self) == (App {
                review_branch_modal: None,
                mode: old(self).panel_mode_at(
                    match old(self).review_branch_modal {
                        Some(s) => s.panel_cursor,
                        None => 0,
                    },
                ),
                ..*old(self)
            }),
    {
        let cursor = match self.review_branch_modal.take() {
            Some(s) => s.panel_cursor,
            None => 0,
        };
        self.return_to_panel(cursor);
    }

    /// Moves the review-branch modal's cursor down one row; a no-op if it
    /// isn't open.
    pub fn review_branch_move_down(&mut self)
        ensures
            *final(self) == (App {
                review_branch_modal: match old(self).review_branch_modal {
                    Some(m) => Some(
                        ReviewBranchState {
                            cursor: (if m.branches@.len() == 0 {
                                0
                            } else if m.cursor + 1 < m.branches@.len() {
                                m.cursor + 1
                            } else {
                                m.branches@.len() - 1
                            }) as usize,
                            ..m
                        },
                    ),
                    None => None,
                },
                ..*old(self)
            }),
    {
        if let Some(s) = self.review_branch_modal.as_mut() {
            s.move_down();
        }
    }

    /// Moves the review-branch modal's cursor up one row; a no-op if it
    /// isn't open.
    pub fn review_branch_move_up(&mut self)
        ensures
            *final(self) == (App {
                review_branch_modal: match old(self).review_branch_modal {
                    Some(m) => Some(
                        ReviewBranchState {
                            cursor: (if m.cursor > 0 {
                                m.cursor - 1
                            } else {
                                0
                            }) as usize,
                            ..m
                        },
                    ),
                    None => None,
                },
                ..*old(self)
            }),
    {
        if let Some(s) = self.review_branch_modal.as_mut() {
            s.move_up();
        }
    }

    /// The `Enter` gesture in the review-branch modal: picks the branch
    /// under the cursor. A no-op (`None`) when the modal isn't open or its
    /// cursor is on no branch; without a backend, a footer message and
    /// `None`. Otherwise returns the branch whose review session the caller
    /// starts; the modal stays open until that succeeds.
    pub fn confirm_review_branch<O: StageOps>(&mut self, ops: Option<&O>) -> (r: Option<String>)
        ensures
            match old(self).review_branch_modal {
                Some(s) => if s.cursor < s.branches@.len() {
                    if ops is None {
                        &&& r is None
                        &&& *final(self) == (App {
                            status_message: final(self).status_message,
                            ..*old(self)
                        })
                        &&& final(self).message() == Some(no_backend_review_text())
                    } else {
                        &&& r matches Some(b) && b@ == s.branches@[s.cursor as int].name@
                        &&& *final(self) == *old(self)
                    }
                } else {
                    r is None && *final(self) == *old(self)
                },
                None => r is None && *final(self) == *old(self),
            },
    {
        let name = match &self.review_branch_modal {
            Some(s) => {
                if s.cursor < s.branches.len() {
                    s.branches[s.cursor].name.clone()
                } else {
                    return None;
                }
            },
            None => return None,
        };
        match ops {
            None => {
                let m = String::from_str("review-branch unavailable (no git backend)");
                proof {
                    reveal_strlit("review-branch unavailable (no git backend)");
                }
                self.set_status_message(m);
                None
            },
            Some(_) => Some(name),
        }
    }

    /// Ends a review-branch session start for `branch` that gave back
    /// `result`: on success the modal closes back to the git panel (see
    /// [`App::close_review_branch_modal`]) and the footer says which branch
    /// is under review; on failure the footer shows `review failed: <error>`
    /// and the modal stays open with everything else as it was.
    pub fn finish_review_branch_start(&mut self, branch: &str, result: Result<(), String>)
        ensures
            match result {
                Ok(_) => {
                    &&& final(self).message() == Some("reviewing "@ + branch@)
                    &&& *final(self) == (App {
                        status_message: final(self).status_message,
                        review_branch_modal: None,
                        mode: old(self).panel_mode_at(
                            match old(self).review_branch_modal {
                                Some(s) => s.panel_cursor,
                                None => 0,
                            },
                        ),
                        ..*old(self)
                    })
                },
                Err(e) => {
                    &&& final(self).message() == Some("review failed: "@ + e@)
                    &&& *final(self) == (App { status_message: final(self).status_message, ..*old(self) })
                },
            },
    {
        proof {
            reveal_strlit("reviewing ");
            reveal_strlit("review failed: ");
        }
        match result {
            Ok(()) => {
                self.close_review_branch_modal();
                self.set_status_message(concat2("reviewing ", branch));
            },
            Err(e) => {
                self.set_status_message(concat2("review failed: ", e.as_str()));
            },
        }
    }
}

} // verus!
