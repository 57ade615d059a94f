//! The Review launcher's tabs: Branches, Commits and Pull Requests, cycled
//! in that order.
use vstd::prelude::*;

use crate::app::{App, Mode, ModeOrigin, capture_spec, concat2, concat3, lemma_restore_captured, restore_spec};
use crate::forge::PullRequest;
use crate::git::{CommitLogEntry, CommitLogRange, DiffTarget, GitError, LocalBranch};
use crate::motion::{full_page, half_page, jump_bottom, step, step_spec};
use crate::stage_ops::{PrFetchOutcome, StageOps};

verus! {

/// Which tab of the Review launcher is active.
#[derive(Debug, Clone, Copy, PartialEq, Eq, Structural)]
pub enum LauncherTab {
    /// Local branches, for starting a worktree-backed review (the default).
    Branches,
    /// Commits, for opening a single read-only commit view.
    Commits,
    /// The repo's open pull requests.
    PullRequests,
}

impl Default for LauncherTab {
    fn default() -> (t: LauncherTab)
        ensures
            t == LauncherTab::Branches,
    {
        LauncherTab::Branches
    }
}

/// The tab after `t` in display order, wrapping from the last to the first.
pub open spec fn next_tab(t: LauncherTab) -> LauncherTab {
    match t {
        LauncherTab::Branches => LauncherTab::Commits,
        LauncherTab::Commits => LauncherTab::PullRequests,
        LauncherTab::PullRequests => LauncherTab::Branches,
    }
}

/// A tab's position in display order.
pub open spec fn tab_index(t: LauncherTab) -> int {
    match t {
        LauncherTab::Branches => 0,
        LauncherTab::Commits => 1,
        LauncherTab::PullRequests => 2,
    }
}

impl LauncherTab {
    /// The next tab in display order, wrapping past the end back to the
    /// start.
    pub fn toggle(self) -> (t: LauncherTab)
        ensures
            t == next_tab(self),
            tab_index(t) == (tab_index(self) + 1) % 3,
    {
        match self {
            LauncherTab::Branches => LauncherTab::Commits,
            LauncherTab::Commits => LauncherTab::PullRequests,
            LauncherTab::PullRequests => LauncherTab::Branches,
        }
    }
}

/// Cycling through the launcher's tabs visits every tab and comes back:
/// three toggles from any tab return to it.
pub proof fn lemma_toggle_cycles(t: LauncherTab)
    ensures
        next_tab(next_tab(next_tab(t))) == t,
        next_tab(t) != t,
        next_tab(next_tab(t)) != t,
{
}

/// What the launcher's `Enter` asks the caller to start: a worktree-backed
/// review of a branch, or a checkout of a pull request into one. Both run
/// git and the filesystem, so the caller carries them out.
#[derive(Debug, Clone, PartialEq, Eq)]
pub enum LauncherStart {
    /// Start reviewing branch `name`.
    Branch { name: String },
    /// Check out pull request `number` (based on `base_ref`) and review it.
    Pr { number: u64, base_ref: String, title: String },
}

/// The branches of `bs` not checked out here, in order.
pub open spec fn others(bs: Seq<LocalBranch>) -> Seq<LocalBranch>
    decreases bs.len(),
{
    if bs.len() == 0 {
        seq![]
    } else if bs.last().is_current {
        others(bs.drop_last())
    } else {
        others(bs.drop_last()).push(bs.last())
    }
}

/// The pull requests of a listing outcome: the loaded ones, or none.
pub open spec fn pr_rows_spec(o: Option<PrFetchOutcome>) -> Seq<PullRequest> {
    match o {
        Some(PrFetchOutcome::Loaded { prs, .. }) => prs@,
        _ => seq![],
    }
}

/// The launcher's row count on `tab`.
pub open spec fn tab_len(app: App, tab: LauncherTab) -> int {
    match tab {
        LauncherTab::Branches => app.launcher_branches@.len() as int,
        LauncherTab::Commits => if app.launcher_all_commits {
            app.history@.len() as int
        } else {
            app.launcher_commits@.len() as int
        },
        LauncherTab::PullRequests => pr_rows_spec(app.launcher_prs).len() as int,
    }
}

/// `app` with the launcher's cursor moved to `c` (unchanged outside the
/// launcher).
pub open spec fn with_launcher_cursor(app: App, c: usize) -> App {
    match app.mode {
        Mode::ReviewLauncher { tab, origin, .. } => App {
            mode: Mode::ReviewLauncher { tab, cursor: c, origin },
            ..app
        },
        _ => app,
    }
}

/// The launcher's cursor, 0 outside the launcher.
pub open spec fn launcher_cursor(app: App) -> int {
    match app.mode {
        Mode::ReviewLauncher { cursor, .. } => cursor as int,
        _ => 0,
    }
}

/// The launcher's row count on its active tab, 0 outside the launcher.
pub open spec fn launcher_len(app: App) -> int {
    match app.mode {
        Mode::ReviewLauncher { tab, .. } => tab_len(app, tab),
        _ => 0,
    }
}

/// `app` after a cursor step of `delta` rows in the launcher (unchanged
/// outside it).
pub open spec fn launcher_stepped(app: App, delta: int, down: bool) -> App {
    with_launcher_cursor(app, step_spec(launcher_cursor(app), launcher_len(app), delta, down) as usize)
}

/// The rows a half-page motion moves over a `height`-row viewport.
pub open spec fn half_spec(height: usize) -> int {
    if height / 2 == 0 { 1 } else { (height / 2) as int }
}

/// The rows a full-page motion moves over a `height`-row viewport.
pub open spec fn full_spec(height: usize) -> int {
    if height == 0 { 1 } else { height as int }
}

/// The footer message refusing to start a review inside one, naming the
/// branch under review and the key that ends it.
pub open spec fn already_reviewing_text(app: App) -> Seq<char> {
    "already reviewing "@ + match app.target {
        DiffTarget::Review { branch, .. } => branch@,
        _ => "this branch"@,
    } + " \u{2014} press q to finish or pause"@
}

/// The footer message refusing a second pull-request checkout.
pub open spec fn checkout_running_text() -> Seq<char> {
    "a PR checkout is already running \u{2014} wait for it"@
}

/// The footer message announcing a pull-request checkout.
pub open spec fn checking_out_text(number: u64) -> Seq<char> {
    "checking out #"@ + crate::decimal::dec(number as nat) + " \u{2026}"@
}

/// How reading the Branches tab's list left `new` from `old`: only the
/// list changed, to the local branches not checked out here of what the
/// backend listed (see [`others`]), or to nothing without a backend
/// (`no_ops`) or on a failed read.
pub open spec fn branches_loaded(old: App, new: App, no_ops: bool) -> bool {
    &&& new == (App { launcher_branches: new.launcher_branches, ..old })
    &&& no_ops ==> new.launcher_branches@.len() == 0
    &&& new.launcher_branches@.len() == 0 || exists|all: Seq<LocalBranch>|
        new.launcher_branches@ == #[trigger] others(all)
}

/// How a request for the ahead-of-base commits went on once the backend
/// answered: `base` is the default base it read, `off_thread` whether it
/// reads in the background, `read` what an inline read of the range gave.
/// A failed base read marks the tab loaded and empty (the list kept); a
/// background backend gets the range `base..HEAD` back and the read is
/// marked running at the current generation; otherwise the inline read's
/// commits are applied (see [`App::finish_inline_commits`]).
pub open spec fn commits_outcome(
    old: App,
    new: App,
    base: Result<String, GitError>,
    off_thread: bool,
    read: Result<Vec<CommitLogEntry>, GitError>,
    r: Option<CommitLogRange>,
) -> bool {
    match base {
        Err(_) => r is None && new == (App { launcher_commits_loaded: true, ..old }),
        Ok(b) => if off_thread {
            &&& r matches Some(range) && range.base == b && range.head@ == "HEAD"@
            &&& new == (App { launcher_commits_in_flight: Some(old.launcher_commits_generation), ..old })
        } else {
            &&& r is None
            &&& new == match read {
                Ok(c) => App { launcher_commits: c, launcher_commits_loaded: true, ..old },
                Err(_) => App { launcher_commits_loaded: true, ..old },
            }
        },
    }
}

/// How requesting the ahead-of-base commits left `new` from `old` with
/// background read `r`: nothing while a read is running; without a backend
/// (`no_ops`) the tab is marked loaded; otherwise as the backend's answers
/// call for (see [`commits_outcome`]).
pub open spec fn commits_requested(old: App, new: App, no_ops: bool, r: Option<CommitLogRange>) -> bool {
    &&& old.launcher_commits_in_flight is Some ==> r is None && new == old
    &&& old.launcher_commits_in_flight is None && no_ops ==> r is None && new == (App {
        launcher_commits_loaded: true,
        ..old
    })
    &&& old.launcher_commits_in_flight is None && !no_ops ==> exists|
        base: Result<String, GitError>,
        off_thread: bool,
        read: Result<Vec<CommitLogEntry>, GitError>,
    | #[trigger] commits_outcome(old, new, base, off_thread, read, r)
}

/// How making sure the ahead-of-base commits were requested left `new`
/// from `old` with background read `r`: requested (see
/// [`commits_requested`]) unless read already or a read is running.
pub open spec fn commits_ensured(old: App, new: App, no_ops: bool, r: Option<CommitLogRange>) -> bool {
    &&& old.launcher_commits_loaded || old.launcher_commits_in_flight is Some ==> r is None && new == old
    &&& !old.launcher_commits_loaded && old.launcher_commits_in_flight is None ==> commits_requested(
        old,
        new,
        no_ops,
        r,
    )
}

/// How making sure the Commits tab's source was requested left `new` from
/// `old`: nothing for the whole log, else see [`commits_ensured`].
pub open spec fn commits_source_ensured(old: App, new: App, no_ops: bool, r: Option<CommitLogRange>) -> bool {
    &&& old.launcher_all_commits ==> r is None && new == old
    &&& !old.launcher_all_commits ==> commits_ensured(old, new, no_ops, r)
}

/// How requesting the pull-request listing left `new` from `old`
/// (`spawn` when the caller lists in the background): nothing while a
/// listing runs; without a backend (`no_ops`) "no forge remote"; a
/// background listing marks itself running at the current generation;
/// otherwise the outcome the backend listed inline replaces what was showing
/// (see [`App::apply_inline_prs`]).
pub open spec fn prs_requested(old: App, new: App, no_ops: bool, spawn: bool) -> bool {
    &&& new == (App { launcher_prs: new.launcher_prs, launcher_prs_in_flight: new.launcher_prs_in_flight, ..old })
    &&& old.launcher_prs_in_flight is Some ==> !spawn && new == old
    &&& old.launcher_prs_in_flight is None && no_ops ==> !spawn && new == (App {
        launcher_prs: Some(PrFetchOutcome::NoForgeRemote),
        ..old
    })
    &&& spawn ==> new == (App { launcher_prs_in_flight: Some(old.launcher_prs_generation), ..old })
    &&& !spawn && old.launcher_prs_in_flight is None && !no_ops ==> exists|o: PrFetchOutcome|
        #[trigger] listed_inline(old, new, o)
}

/// `new` is `old` showing the outcome `o` of an inline listing.
pub open spec fn listed_inline(old: App, new: App, o: PrFetchOutcome) -> bool {
    new == (App { launcher_prs: Some(o), ..old })
}

/// The mode a launcher closes to (see [`App::close_review_launcher`]).
pub open spec fn closed_launcher_mode(mode: Mode) -> Mode {
    match mode {
        Mode::ReviewLauncher { origin, .. } => restore_spec(origin),
        m => m,
    }
}

/// Opening the launcher and closing it again, on any tab and wherever its
/// cursor went, gives back the mode it was opened from: Normal, Visual with
/// its anchor, or the git panel with its cursor and tab.
pub proof fn lemma_launcher_close_returns_where_opened(mode: Mode, tab: LauncherTab, cursor: usize)
    requires
        mode is Normal || mode is Visual || mode is Panel,
    ensures
        closed_launcher_mode(Mode::ReviewLauncher { tab, cursor, origin: capture_spec(mode) }) == mode,
{
    lemma_restore_captured(mode);
}

/// Whether going from mode `old` to `new` keeps the launcher open on the
/// origin it was opened from (anything goes outside the launcher).
pub open spec fn launcher_origin_kept(old: Mode, new: Mode) -> bool {
    match old {
        Mode::ReviewLauncher { origin, .. } => new matches Mode::ReviewLauncher { origin: o, .. } && o == origin,
        _ => true,
    }
}

/// However the launcher is used between opening and closing, closing it
/// returns to the mode it was opened from: for any run of modes that starts
/// with the launcher just opened from Normal, Visual or the git panel and
/// where each step keeps the launcher's origin (as every launcher motion,
/// tab switch and source toggle does), closing after the last gives back
/// the mode it was opened from.
pub proof fn lemma_launcher_session_returns_where_opened(m0: Mode, modes: Seq<Mode>)
    requires
        m0 is Normal || m0 is Visual || m0 is Panel,
        modes.len() > 0,
        modes[0] matches Mode::ReviewLauncher { origin, .. } && origin == capture_spec(m0),
        forall|i: int| 0 <= i < modes.len() - 1 ==> launcher_origin_kept(#[trigger] modes[i], modes[i + 1]),
    ensures
        modes.last() matches Mode::ReviewLauncher { origin, .. } && origin == capture_spec(m0),
        closed_launcher_mode(modes.last()) == m0,
    decreases modes.len(),
{
    if modes.len() == 1 {
        lemma_restore_captured(m0);
    } else {
        let shorter = modes.drop_last();
        assert forall|i: int| 0 <= i < shorter.len() - 1 implies launcher_origin_kept(
            #[trigger] shorter[i],
            shorter[i + 1],
        ) by {
            assert(launcher_origin_kept(modes[i], modes[i + 1]));
        }
        lemma_launcher_session_returns_where_opened(m0, shorter);
        assert(launcher_origin_kept(modes[modes.len() - 2], modes[modes.len() - 1]));
        lemma_restore_captured(m0);
    }
}

/// The branches of `all` that are not checked out here.
fn other_branches(all: &Vec<LocalBranch>) -> (out: Vec<LocalBranch>)
    ensures
        out@ == others(all@),
{
    let mut out: Vec<LocalBranch> = Vec::new();
    let mut i: usize = 0;
    while i < all.len()
        invariant
            i <= all.len(),
            out@ == others(all@.take(i as int)),
        decreases all.len() - i,
    {
        proof {
            assert(all@.take(i + 1).drop_last() =~= all@.take(i as int));
        }
        if !all[i].is_current {
            out.push(all[i].duplicate());
        }
        i = i + 1;
    }
    assert(all@.take(all.len() as int) =~= all@);
    out
}

impl App {
    /// Reads the Branches tab's list through `ops`: the local branches not
    /// checked out here, or nothing without a backend or on a failed read.
    pub fn load_launcher_branches<O: StageOps>(&mut self, ops: Option<&O>)
        ensures
            branches_loaded(*old(self), *final(self), ops is None),
    {
        self.launcher_branches = match ops {
            Some(o) => match o.branch_list() {
                Ok(all) => other_branches(&all),
                Err(_) => Vec::new(),
            },
            None => Vec::new(),
        };
    }

    /// Applies an ahead-of-base commit read, marking the tab loaded.
    pub fn apply_launcher_commits(&mut self, commits: Vec<CommitLogEntry>)
        ensures
            *final(self) == (App {
                launcher_commits: commits,
                launcher_commits_loaded: true,
                ..*old(self)
            }),
    {
        self.launcher_commits = commits;
        self.launcher_commits_loaded = true;
    }

    /// Starts reading the commits ahead of the base the backend answered
    /// (`base`): a failed base read marks the tab loaded and empty; a
    /// backend that reads in the background (`off_thread`) gets the range
    /// `base..HEAD` back and the read is marked running at the current
    /// generation; otherwise the range is handed back to be read inline,
    /// nothing changing yet.
    pub fn start_launcher_commits(&mut self, base: Result<String, GitError>, off_thread: bool) -> (r:
        CommitsStart)
        ensures
            match base {
                Err(_) => r == CommitsStart::Done && *final(self) == (App {
                    launcher_commits_loaded: true,
                    ..*old(self)
                }),
                Ok(b) => if off_thread {
                    &&& r matches CommitsStart::Background(range) && range.base == b && range.head@ == "HEAD"@
                    &&& *final(self) == (App {
                        launcher_commits_in_flight: Some(old(self).launcher_commits_generation),
                        ..*old(self)
                    })
                } else {
                    r matches CommitsStart::Inline(range) && range.base == b && range.head@ == "HEAD"@
                        && *final(self) == *old(self)
                },
            },
    {
        let base = match base {
            Ok(b) => b,
            Err(_) => {
                self.launcher_commits_loaded = true;
                return CommitsStart::Done;
            },
        };
        let head = String::from_str("HEAD");
        proof {
            reveal_strlit("HEAD");
        }
        let range = CommitLogRange { base, head };
        if off_thread {
            self.launcher_commits_in_flight = Some(self.launcher_commits_generation);
            CommitsStart::Background(range)
        } else {
            CommitsStart::Inline(range)
        }
    }

    /// Applies an inline read of the ahead-of-base commits: its commits on
    /// success; on failure the tab is marked loaded and the list kept.
    pub fn finish_inline_commits(&mut self, read: Result<Vec<CommitLogEntry>, GitError>)
        ensures
            *final(self) == match read {
                Ok(c) => App { launcher_commits: c, launcher_commits_loaded: true, ..*old(self) },
                Err(_) => App { launcher_commits_loaded: true, ..*old(self) },
            },
    {
        match read {
            Ok(commits) => self.apply_launcher_commits(commits),
            Err(_) => self.launcher_commits_loaded = true,
        }
    }

    /// Requests the commits ahead of the review base: nothing while a read is
    /// running; without a backend or a resolvable base the tab is marked
    /// loaded and empty; a backend that reads inline is read now; one that
    /// reads in the background gets the range back (to read and hand to
    /// [`App::finish_launcher_commits`]) and the read is marked running.
    pub fn request_launcher_commits<O: StageOps>(&mut self, ops: Option<&O>) -> (r: Option<
        CommitLogRange,
    >)
        ensures
            commits_requested(*old(self), *final(self), ops is None, r),
    {
        if self.launcher_commits_in_flight.is_some() {
            return None;
        }
        let ops = match ops {
            Some(o) => o,
            None => {
                self.launcher_commits_loaded = true;
                return None;
            },
        };
        let base = ops.default_base();
        let ghost b = base;
        let off_thread = ops.reads_off_thread();
        let ghost before = *self;
        let ghost any_read = vstd::pervasive::arbitrary::<Result<Vec<CommitLogEntry>, GitError>>();
        match self.start_launcher_commits(base, off_thread) {
            CommitsStart::Done => {
                assert(commits_outcome(before, *self, b, off_thread, any_read, None));
                None
            },
            CommitsStart::Background(range) => {
                assert(commits_outcome(before, *self, b, off_thread, any_read, Some(range)));
                Some(range)
            },
            CommitsStart::Inline(range) => {
                let read = ops.commit_log_range(&range);
                let ghost rd = read;
                self.finish_inline_commits(read);
                assert(commits_outcome(before, *self, b, off_thread, rd, None));
                None
            },
        }
    }

    /// Hands back the background ahead-of-base read started at
    /// `generation`: ignored unless it is the one running; applied unless the
    /// generation moved on since (then dropped); a read that failed marks
    /// the tab loaded and empty.
    pub fn finish_launcher_commits(
        &mut self,
        generation: u64,
        result: Option<Vec<CommitLogEntry>>,
    )
        ensures
            old(self).launcher_commits_in_flight != Some(generation) ==> *final(self) == *old(self),
            old(self).launcher_commits_in_flight == Some(generation) ==> {
                &&& final(self).launcher_commits_in_flight is None
                &&& generation != old(self).launcher_commits_generation ==> *final(self) == (App {
                    launcher_commits_in_flight: None,
                    ..*old(self)
                })
                &&& generation == old(self).launcher_commits_generation ==> *final(self) == (App {
                    launcher_commits_in_flight: None,
                    launcher_commits_loaded: true,
                    launcher_commits: match result {
                        Some(c) => c,
                        None => old(self).launcher_commits,
                    },
                    ..*old(self)
                })
            },
    {
        if self.launcher_commits_in_flight != Some(generation) {
            return ;
        }
        self.launcher_commits_in_flight = None;
        if generation != self.launcher_commits_generation {
            return ;
        }
        match result {
            Some(commits) => self.apply_launcher_commits(commits),
            None => self.launcher_commits_loaded = true,
        }
    }

    /// Requests the ahead-of-base commits unless they were read or a read is
    /// running (see [`App::request_launcher_commits`]).
    pub fn ensure_launcher_commits_loaded<O: StageOps>(&mut self, ops: Option<&O>) -> (r: Option<
        CommitLogRange,
    >)
        ensures
            *final(self) == (App {
                launcher_commits: final(self).launcher_commits,
                launcher_commits_loaded: final(self).launcher_commits_loaded,
                launcher_commits_in_flight: final(self).launcher_commits_in_flight,
                ..*old(self)
            }),
            old(self).launcher_commits_loaded || old(self).launcher_commits_in_flight is Some ==> r
                is None && *final(self) == *old(self),
            !old(self).launcher_commits_loaded && old(self).launcher_commits_in_flight is None
                ==> commits_requested(*old(self), *final(self), ops is None, r),
    {
        if !self.launcher_commits_loaded && self.launcher_commits_in_flight.is_none() {
            self.request_launcher_commits(ops)
        } else {
            None
        }
    }

    /// Makes sure the Commits tab's active source has been requested: the
    /// ahead-of-base commits (the whole log is the History tab's to read).
    pub fn ensure_launcher_commits_source_loaded<O: StageOps>(&mut self, ops: Option<&O>) -> (r:
        Option<CommitLogRange>)
        ensures
            *final(self) == (App {
                launcher_commits: final(self).launcher_commits,
                launcher_commits_loaded: final(self).launcher_commits_loaded,
                launcher_commits_in_flight: final(self).launcher_commits_in_flight,
                ..*old(self)
            }),
            old(self).launcher_all_commits ==> r is None && *final(self) == *old(self),
            !old(self).launcher_all_commits ==> commits_ensured(*old(self), *final(self), ops is None, r),
    {
        if self.launcher_all_commits {
            None
        } else {
            self.ensure_launcher_commits_loaded(ops)
        }
    }

    /// The Commits tab's rows: the whole log once toggled, else the commits
    /// ahead of the base.
    pub fn launcher_commits_rows(&self) -> (rows: &Vec<CommitLogEntry>)
        ensures
            *rows == if self.launcher_all_commits {
                self.history
            } else {
                self.launcher_commits
            },
    {
        if self.launcher_all_commits {
            &self.history
        } else {
            &self.launcher_commits
        }
    }

    /// Whether the Commits tab's active source has yet to produce its first
    /// result.
    pub fn launcher_commits_loading(&self) -> (b: bool)
        ensures
            b == if self.launcher_all_commits {
                self.history_loading
            } else {
                !self.launcher_commits_loaded && self.launcher_commits_in_flight is Some
            },
    {
        if self.launcher_all_commits {
            self.history_loading
        } else {
            !self.launcher_commits_loaded && self.launcher_commits_in_flight.is_some()
        }
    }

    /// Toggles the Commits tab between the commits ahead of the base and the
    /// whole log, putting the cursor back on the top row and requesting the
    /// newly shown source.
    pub fn review_launcher_toggle_all_commits<O: StageOps>(&mut self, ops: Option<&O>) -> (r:
        Option<CommitLogRange>)
        ensures
            launcher_origin_kept(old(self).mode, final(self).mode),
            final(self).launcher_all_commits == !old(self).launcher_all_commits,
            final(self).mode == (match old(self).mode {
                Mode::ReviewLauncher { tab, origin, .. } => Mode::ReviewLauncher {
                    tab,
                    cursor: 0,
                    origin,
                },
                m => m,
            }),
    {
        self.launcher_all_commits = !self.launcher_all_commits;
        if let Mode::ReviewLauncher { tab, origin, .. } = self.mode {
            self.mode = Mode::ReviewLauncher { tab, cursor: 0, origin };
        }
        self.ensure_launcher_commits_source_loaded(ops)
    }

    /// The Pull Requests tab's rows: the loaded listing, or none.
    pub fn launcher_prs_rows(&self) -> (rows: &[PullRequest])
        ensures
            rows@ == pr_rows_spec(self.launcher_prs),
    {
        match &self.launcher_prs {
            Some(PrFetchOutcome::Loaded { prs, .. }) => prs.as_slice(),
            _ => &[],
        }
    }

    /// Whether the Pull Requests tab's first listing is still running.
    pub fn launcher_prs_loading(&self) -> (b: bool)
        ensures
            b == (self.launcher_prs is None && self.launcher_prs_in_flight is Some),
    {
        self.launcher_prs.is_none() && self.launcher_prs_in_flight.is_some()
    }

    /// Shows the outcome of an inline pull-request listing, replacing
    /// whatever was showing.
    pub fn apply_inline_prs(&mut self, outcome: PrFetchOutcome)
        ensures
            *final(self) == (App { launcher_prs: Some(outcome), ..*old(self) }),
    {
        self.launcher_prs = Some(outcome);
    }

    /// Requests the pull-request listing: nothing while one is running;
    /// without a backend the tab shows "no forge remote"; a backend that
    /// reads inline is listed now; one that reads in the background is
    /// marked running and `true` is returned (the caller lists and hands the
    /// outcome to [`App::finish_launcher_prs`]).
    pub fn request_launcher_prs<O: StageOps>(&mut self, ops: Option<&O>) -> (spawn: bool)
        ensures
            prs_requested(*old(self), *final(self), ops is None, spawn),
    {
        if self.launcher_prs_in_flight.is_some() {
            return false;
        }
        match ops {
            None => {
                self.launcher_prs = Some(PrFetchOutcome::NoForgeRemote);
                false
            },
            Some(o) => {
                if o.reads_off_thread() {
                    self.launcher_prs_in_flight = Some(self.launcher_prs_generation);
                    true
                } else {
                    let outcome = o.list_open_prs();
                    let ghost listed = outcome;
                    let ghost before = *self;
                    self.apply_inline_prs(outcome);
                    assert(listed_inline(before, *self, listed));
                    false
                }
            },
        }
    }

    /// Requests the pull-request listing unless a loaded one is showing or
    /// one is running; a degraded outcome is retried.
    pub fn ensure_launcher_prs_loaded<O: StageOps>(&mut self, ops: Option<&O>) -> (spawn: bool)
        ensures
            *final(self) == (App {
                launcher_prs: final(self).launcher_prs,
                launcher_prs_in_flight: final(self).launcher_prs_in_flight,
                ..*old(self)
            }),
            (old(self).launcher_prs matches Some(PrFetchOutcome::Loaded { .. })) ==> !spawn
                && *final(self) == *old(self),
            !(old(self).launcher_prs matches Some(PrFetchOutcome::Loaded { .. })) ==> prs_requested(
                *old(self),
                *final(self),
                ops is None,
                spawn,
            ),
    {
        let needs_fetch = match &self.launcher_prs {
            Some(PrFetchOutcome::Loaded { .. }) => false,
            _ => true,
        };
        if needs_fetch && self.launcher_prs_in_flight.is_none() {
            self.request_launcher_prs(ops)
        } else {
            false
        }
    }

    /// Hands back the background listing started at `generation`: ignored
    /// unless it is the one running; applied unless the generation moved on
    /// since (then dropped); a listing task that died becomes a failed
    /// listing.
    pub fn finish_launcher_prs(&mut self, generation: u64, result: Option<PrFetchOutcome>)
        ensures
            old(self).launcher_prs_in_flight != Some(generation) ==> *final(self) == *old(self),
            old(self).launcher_prs_in_flight == Some(generation) && generation
                != old(self).launcher_prs_generation ==> *final(self) == (App {
                launcher_prs_in_flight: None,
                ..*old(self)
            }),
            old(self).launcher_prs_in_flight == Some(generation) && generation
                == old(self).launcher_prs_generation ==> {
                &&& final(self).launcher_prs is Some
                &&& result matches Some(o) ==> final(self).launcher_prs == Some(o)
                &&& *final(self) == (App {
                    launcher_prs_in_flight: None,
                    launcher_prs: final(self).launcher_prs,
                    ..*old(self)
                })
            },
    {
        if self.launcher_prs_in_flight != Some(generation) {
            return ;
        }
        self.launcher_prs_in_flight = None;
        if generation != self.launcher_prs_generation {
            return ;
        }
        self.launcher_prs = Some(
            match result {
                Some(o) => o,
                None => PrFetchOutcome::ListFailed {
                    message: String::from_str("background PR fetch task panicked"),
                },
            },
        );
    }

    /// Loads what `tab` shows: the branch list, the Commits tab's source, or
    /// the pull-request listing. Returns what the caller must read in the
    /// background, if anything.
    fn load_launcher_tab<O: StageOps>(&mut self, tab: LauncherTab, ops: Option<&O>) -> (r:
        LauncherLoad)
        ensures
            *final(self) == (App {
                launcher_branches: final(self).launcher_branches,
                launcher_commits: final(self).launcher_commits,
                launcher_commits_loaded: final(self).launcher_commits_loaded,
                launcher_commits_in_flight: final(self).launcher_commits_in_flight,
                launcher_prs: final(self).launcher_prs,
                launcher_prs_in_flight: final(self).launcher_prs_in_flight,
                ..*old(self)
            }),
            tab == LauncherTab::Branches ==> r == LauncherLoad::Nothing && branches_loaded(
                *old(self),
                *final(self),
                ops is None,
            ),
            tab == LauncherTab::Commits ==> (r is Nothing || r is Commits) && commits_source_ensured(
                *old(self),
                *final(self),
                ops is None,
                match r {
                    LauncherLoad::Commits(range) => Some(range),
                    _ => None,
                },
            ),
            tab == LauncherTab::PullRequests ==> (r is Nothing || r is Prs),
            tab == LauncherTab::PullRequests && !(old(self).launcher_prs matches Some(
                PrFetchOutcome::Loaded { .. },
            )) ==> prs_requested(*old(self), *final(self), ops is None, r is Prs),
            tab == LauncherTab::PullRequests && (old(self).launcher_prs matches Some(
                PrFetchOutcome::Loaded { .. },
            )) ==> r is Nothing && *final(self) == *old(self),
    {
        match tab {
            LauncherTab::Branches => {
                self.load_launcher_branches(ops);
                LauncherLoad::Nothing
            },
            LauncherTab::Commits => match self.ensure_launcher_commits_source_loaded(ops) {
                Some(range) => LauncherLoad::Commits(range),
                None => LauncherLoad::Nothing,
            },
            LauncherTab::PullRequests => if self.ensure_launcher_prs_loaded(ops) {
                LauncherLoad::Prs
            } else {
                LauncherLoad::Nothing
            },
        }
    }

    /// Opens the Review launcher on the tab last shown, remembering the mode
    /// it was opened from, and loads that tab (see the returned
    /// [`LauncherLoad`]).
    pub fn open_review_launcher<O: StageOps>(&mut self, ops: Option<&O>) -> (r: LauncherLoad)
        ensures
            final(self).mode == (Mode::ReviewLauncher {
                tab: old(self).last_launcher_tab,
                cursor: 0,
                origin: capture_spec(old(self).mode),
            }),
            final(self).motion_count is None,
            final(self).last_launcher_tab == old(self).last_launcher_tab,
    {
        let origin = ModeOrigin::capture(self.mode);
        let tab = self.last_launcher_tab;
        self.mode = Mode::ReviewLauncher { tab, cursor: 0, origin };
        self.motion_count = None;
        self.load_launcher_tab(tab, ops)
    }

    /// Closes the launcher, restoring the mode it was opened from exactly; a
    /// no-op outside the launcher.
    pub fn close_review_launcher(&mut self)
        ensures
            *final(self) == (App { mode: closed_launcher_mode(old(self).mode), ..*old(self) }),
    {
        if let Mode::ReviewLauncher { origin, .. } = self.mode {
            self.mode = origin.restore();
        }
    }

    /// Cycles the launcher to its next tab, cursor back on the top row,
    /// remembering the tab for the next open, and loads it; a no-op outside
    /// the launcher.
    pub fn review_launcher_switch_tab<O: StageOps>(&mut self, ops: Option<&O>) -> (r: LauncherLoad)
        ensures
            launcher_origin_kept(old(self).mode, final(self).mode),
            !(old(self).mode is ReviewLauncher) ==> *final(self) == *old(self) && r
                == LauncherLoad::Nothing,
            old(self).mode matches Mode::ReviewLauncher { tab, origin, .. } ==> {
                &&& final(self).mode == (Mode::ReviewLauncher {
                    tab: next_tab(tab),
                    cursor: 0,
                    origin,
                })
                &&& final(self).last_launcher_tab == next_tab(tab)
            },
    {
        if let Mode::ReviewLauncher { tab, origin, .. } = self.mode {
            let new_tab = tab.toggle();
            self.mode = Mode::ReviewLauncher { tab: new_tab, cursor: 0, origin };
            self.last_launcher_tab = new_tab;
            self.load_launcher_tab(new_tab, ops)
        } else {
            LauncherLoad::Nothing
        }
    }

    /// The launcher's row count on its active tab, 0 outside it.
    pub fn review_launcher_row_count(&self) -> (n: usize)
        ensures
            n == launcher_len(*self),
    {
        match self.mode {
            Mode::ReviewLauncher { tab, .. } => match tab {
                LauncherTab::Branches => self.launcher_branches.len(),
                LauncherTab::Commits => self.launcher_commits_rows().len(),
                LauncherTab::PullRequests => self.launcher_prs_rows().len(),
            },
            _ => 0,
        }
    }

    fn review_launcher_step(&mut self, delta: usize, down: bool)
        ensures
            *final(self) == launcher_stepped(*old(self), delta as int, down),
    {
        let len = self.review_launcher_row_count();
        if let Mode::ReviewLauncher { tab, cursor, origin } = self.mode {
            self.mode = Mode::ReviewLauncher { tab, cursor: step(cursor, len, delta, down), origin };
        }
    }

    /// Moves the launcher's cursor down one row, clamped at the last row of
    /// the active tab (0 on an empty tab); a no-op outside the launcher.
    pub fn review_launcher_move_down(&mut self)
        ensures
            launcher_origin_kept(old(self).mode, final(self).mode),
            *final(self) == launcher_stepped(*old(self), 1, true),
    {
        self.review_launcher_step(1, true);
    }

    /// Moves the launcher's cursor up one row, clamped at the first.
    pub fn review_launcher_move_up(&mut self)
        ensures
            launcher_origin_kept(old(self).mode, final(self).mode),
            *final(self) == launcher_stepped(*old(self), 1, false),
    {
        self.review_launcher_step(1, false);
    }

    /// Moves the launcher's cursor down half a viewport.
    pub fn review_launcher_half_page_down(&mut self)
        ensures
            launcher_origin_kept(old(self).mode, final(self).mode),
            *final(self) == launcher_stepped(*old(self), half_spec(old(self).viewport_height), true),
    {
        let d = half_page(self.viewport_height);
        self.review_launcher_step(d, true);
    }

    /// Moves the launcher's cursor up half a viewport.
    pub fn review_launcher_half_page_up(&mut self)
        ensures
            launcher_origin_kept(old(self).mode, final(self).mode),
            *final(self) == launcher_stepped(*old(self), half_spec(old(self).viewport_height), false),
    {
        let d = half_page(self.viewport_height);
        self.review_launcher_step(d, false);
    }

    /// Moves the launcher's cursor down a full viewport.
    pub fn review_launcher_full_page_down(&mut self)
        ensures
            launcher_origin_kept(old(self).mode, final(self).mode),
            *final(self) == launcher_stepped(*old(self), full_spec(old(self).viewport_height), true),
    {
        let d = full_page(self.viewport_height);
        self.review_launcher_step(d, true);
    }

    /// Moves the launcher's cursor up a full viewport.
    pub fn review_launcher_full_page_up(&mut self)
        ensures
            launcher_origin_kept(old(self).mode, final(self).mode),
            *final(self) == launcher_stepped(*old(self), full_spec(old(self).viewport_height), false),
    {
        let d = full_page(self.viewport_height);
        self.review_launcher_step(d, false);
    }

    /// Jumps the launcher's cursor to the first row.
    pub fn review_launcher_jump_to_top(&mut self)
        ensures
            launcher_origin_kept(old(self).mode, final(self).mode),
            *final(self) == with_launcher_cursor(*old(self), 0),
    {
        if let Mode::ReviewLauncher { tab, origin, .. } = self.mode {
            self.mode = Mode::ReviewLauncher { tab, cursor: 0, origin };
        }
    }

    /// Jumps the launcher's cursor to the last row (0 on an empty tab).
    pub fn review_launcher_jump_to_bottom(&mut self)
        ensures
            launcher_origin_kept(old(self).mode, final(self).mode),
            *final(self) == with_launcher_cursor(
                *old(self),
                (if launcher_len(*old(self)) == 0 {
                    0
                } else {
                    launcher_len(*old(self)) - 1
                }) as usize,
            ),
    {
        let len = self.review_launcher_row_count();
        if let Mode::ReviewLauncher { tab, origin, .. } = self.mode {
            self.mode = Mode::ReviewLauncher { tab, cursor: jump_bottom(len), origin };
        }
    }

    /// Opens `sha` in the read-only single-commit view.
    pub fn open_commit_view(&mut self, sha: String)
        ensures
            *final(self) == (App { target: DiffTarget::Commit(sha), mode: Mode::Normal, ..*old(self) }),
    {
        self.target = DiffTarget::Commit(sha);
        self.mode = Mode::Normal;
    }

    /// The message refusing to start a review inside one.
    fn already_reviewing_hint(&mut self)
        ensures
            *final(self) == (App { status_message: final(self).status_message, ..*old(self) }),
            final(self).message() == Some(already_reviewing_text(*old(self))),
    {
        let m = match self.review_branch() {
            Some(b) => concat3("already reviewing ", b.as_str(), " \u{2014} press q to finish or pause"),
            None => concat3(
                "already reviewing ",
                "this branch",
                " \u{2014} press q to finish or pause",
            ),
        };
        proof {
            reveal_strlit("already reviewing ");
            reveal_strlit("this branch");
            reveal_strlit(" \u{2014} press q to finish or pause");
        }
        self.set_status_message(m);
    }

    /// The launcher's `Enter`, dispatched on the active tab:
    /// - Branches: refused with a hint during a review session; a no-op past
    ///   the list; without a backend a footer message; otherwise the branch
    ///   to start reviewing;
    /// - Commits: opens the commit under the cursor in the commit view (a
    ///   no-op past the list);
    /// - Pull Requests: refused with a hint during a review session or while
    ///   a checkout runs; a no-op past the list; otherwise the checkout is
    ///   marked running (until [`App::finish_pr_checkout`]) and the pull request
    ///   to check out, announced in the footer.
    ///
    /// A no-op outside the launcher.
    pub fn review_launcher_confirm<O: StageOps>(&mut self, ops: Option<&O>) -> (r: Option<
        LauncherStart,
    >)
        ensures
            !(old(self).mode is ReviewLauncher) ==> r is None && *final(self) == *old(self),
            old(self).mode matches Mode::ReviewLauncher { tab, cursor, .. } ==> match tab {
                LauncherTab::Branches => if old(self).target is Review {
                    r is None && *final(self) == (App {
                        status_message: final(self).status_message,
                        ..*old(self)
                    }) && final(self).message() == Some(already_reviewing_text(*old(self)))
                } else if cursor >= old(self).launcher_branches@.len() {
                    r is None && *final(self) == *old(self)
                } else if ops is None {
                    r is None && *final(self) == (App {
                        status_message: final(self).status_message,
                        ..*old(self)
                    }) && final(self).message() == Some("review unavailable (no git backend)"@)
                } else {
                    *final(self) == *old(self) && (r matches Some(LauncherStart::Branch { name })
                        && name@ == old(self).launcher_branches@[cursor as int].name@)
                },
                LauncherTab::Commits => if cursor < tab_len(*old(self), LauncherTab::Commits) {
                    r is None && final(self).mode == Mode::Normal && (final(self).target
                        matches DiffTarget::Commit(sha) && sha == (if old(self).launcher_all_commits {
                        old(self).history
                    } else {
                        old(self).launcher_commits
                    })@[cursor as int].sha)
                } else {
                    r is None && *final(self) == *old(self)
                },
                LauncherTab::PullRequests => if old(self).target is Review {
                    r is None && *final(self) == (App {
                        status_message: final(self).status_message,
                        ..*old(self)
                    }) && final(self).message() == Some(already_reviewing_text(*old(self)))
                } else if old(self).pr_checkout_in_flight {
                    r is None && *final(self) == (App {
                        status_message: final(self).status_message,
                        ..*old(self)
                    }) && final(self).message() == Some(checkout_running_text())
                } else if cursor >= pr_rows_spec(old(self).launcher_prs).len() {
                    r is None && *final(self) == *old(self)
                } else {
                    let pr = pr_rows_spec(old(self).launcher_prs)[cursor as int];
                    &&& *final(self) == (App {
                        status_message: final(self).status_message,
                        pr_checkout_in_flight: true,
                        ..*old(self)
                    })
                    &&& final(self).message() == Some(checking_out_text(pr.number))
                    &&& (r matches Some(LauncherStart::Pr { number, base_ref, title }) && number == pr.number
                        && base_ref == pr.base_ref && title == pr.title)
                },
            },
    {
        let (tab, cursor) = match self.mode {
            Mode::ReviewLauncher { tab, cursor, .. } => (tab, cursor),
            _ => return None,
        };
        match tab {
            LauncherTab::Branches => {
                if self.in_review_session() {
                    self.already_reviewing_hint();
                    return None;
                }
                if cursor >= self.launcher_branches.len() {
                    return None;
                }
                let name = self.launcher_branches[cursor].name.clone();
                match ops {
                    None => {
                        let m = String::from_str("review unavailable (no git backend)");
                        proof {
                            reveal_strlit("review unavailable (no git backend)");
                        }
                        self.set_status_message(m);
                        None
                    },
                    Some(_) => Some(LauncherStart::Branch { name }),
                }
            },
            LauncherTab::Commits => {
                let rows = self.launcher_commits_rows();
                if cursor >= rows.len() {
                    return None;
                }
                let sha = rows[cursor].sha.clone();
                self.open_commit_view(sha);
                None
            },
            LauncherTab::PullRequests => {
                if self.in_review_session() {
                    self.already_reviewing_hint();
                    return None;
                }
                if self.pr_checkout_in_flight {
                    let m = String::from_str("a PR checkout is already running \u{2014} wait for it");
                    proof {
                        reveal_strlit("a PR checkout is already running \u{2014} wait for it");
                    }
                    self.set_status_message(m);
                    return None;
                }
                let prs = self.launcher_prs_rows();
                if cursor >= prs.len() {
                    return None;
                }
                let number = prs[cursor].number;
                let title = prs[cursor].title.clone();
                let base_ref = prs[cursor].base_ref.clone();
                let mut m = String::from_str("checking out #");
                proof {
                    reveal_strlit("checking out #");
                    reveal_strlit(" \u{2026}");
                }
                crate::decimal::push_u64(&mut m, number);
                crate::text::push_all(&mut m, " \u{2026}");
                self.set_status_message(m);
                self.pr_checkout_in_flight = true;
                Some(LauncherStart::Pr { number, base_ref, title })
            },
        }
    }

    /// The active tab's filterable labels: branch names, `<short-sha>
    /// <subject>` commits, or `#<number> <title>` pull requests; none
    /// outside the launcher.
    pub fn review_launcher_filter_labels(&self) -> (labels: Vec<String>)
        ensures
            !(self.mode is ReviewLauncher) ==> labels@.len() == 0,
            self.mode is ReviewLauncher ==> labels@.len() == launcher_len(*self),
    {
        let mut out: Vec<String> = Vec::new();
        let tab = match self.mode {
            Mode::ReviewLauncher { tab, .. } => tab,
            _ => return out,
        };
        match tab {
            LauncherTab::Branches => {
                let mut i: usize = 0;
                while i < self.launcher_branches.len()
                    invariant
                        i <= self.launcher_branches@.len(),
                        out@.len() == i,
                    decreases self.launcher_branches.len() - i,
                {
                    out.push(self.launcher_branches[i].name.clone());
                    i = i + 1;
                }
            },
            LauncherTab::Commits => {
                let rows = self.launcher_commits_rows();
                let mut i: usize = 0;
                while i < rows.len()
                    invariant
                        i <= rows@.len(),
                        out@.len() == i,
                    decreases rows.len() - i,
                {
                    out.push(concat3(rows[i].short_sha.as_str(), " ", rows[i].subject.as_str()));
                    i = i + 1;
                }
            },
            LauncherTab::PullRequests => {
                let prs = self.launcher_prs_rows();
                let mut i: usize = 0;
                while i < prs.len()
                    invariant
                        i <= prs@.len(),
                        out@.len() == i,
                    decreases prs.len() - i,
                {
                    let mut l = String::from_str("#");
                    crate::decimal::push_u64(&mut l, prs[i].number);
                    crate::text::push_char(&mut l, ' ');
                    crate::text::push_all(&mut l, prs[i].title.as_str());
                    out.push(l);
                    i = i + 1;
                }
            },
        }
        out
    }
}

/// How a request for the ahead-of-base commits goes on.
#[derive(Debug, PartialEq, Eq)]
pub enum CommitsStart {
    /// Nothing more: the tab is settled.
    Done,
    /// The caller reads this range in the background and hands the commits
    /// to [`App::finish_launcher_commits`].
    Background(CommitLogRange),
    /// This range is read now (see [`App::finish_inline_commits`]).
    Inline(CommitLogRange),
}

/// What a launcher action asks the caller to read in the background.
#[derive(Debug, Clone, PartialEq, Eq)]
pub enum LauncherLoad {
    /// Nothing: whatever was needed was read inline.
    Nothing,
    /// The commits of this range, handed back through
    /// [`App::finish_launcher_commits`].
    Commits(CommitLogRange),
    /// The pull-request listing, handed back through
    /// [`App::finish_launcher_prs`].
    Prs,
}

} // verus!
