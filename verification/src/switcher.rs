//! State for the branch/worktree switcher modal: which tab is active, the
//! branch and worktree lists read when the modal opened, a cursor per tab,
//! and the git panel's cursor row to restore when the modal closes.
use vstd::prelude::*;

use crate::app::{App, concat2, concat3, no_backend_switcher_text};
use crate::command_log::{branch_switch_log_entry, switch_entry_matches};
use crate::git::{GitError, LocalBranch, WorktreeEntry};
use crate::stage_ops::StageOps;
use crate::text::{push_all, push_char};
use crate::motion::{full_page, half_page, jump_bottom, jump_top, step, step_spec};

verus! {

/// Which tab of the switcher modal is active.
#[derive(Debug, Clone, Copy, PartialEq, Eq, Structural)]
pub enum SwitcherTab {
    /// Local branches (the default tab).
    Branches,
    /// Worktrees.
    Worktrees,
}

/// The switcher modal's state.
#[derive(Debug, Clone)]
pub struct SwitcherState {
    /// The active tab.
    pub tab: SwitcherTab,
    /// Local branches, as read when the modal opened.
    pub branches: Vec<LocalBranch>,
    /// Worktrees, as read when the modal opened.
    pub worktrees: Vec<WorktreeEntry>,
    /// The Branches tab's cursor.
    pub branch_cursor: usize,
    /// The Worktrees tab's cursor.
    pub worktree_cursor: usize,
    /// The git panel's cursor row to restore when the modal closes.
    pub panel_cursor: usize,
}

/// Whether the worktree at `wt_path` is the one rooted at `repo_root`.
pub open spec fn is_current_spec(repo_root: Option<Seq<char>>, wt_path: Seq<char>) -> bool {
    match repo_root {
        Some(root) => root == wt_path,
        None => false,
    }
}

/// The view of an optional path.
pub open spec fn opt_str_view(o: Option<&str>) -> Option<Seq<char>> {
    match o {
        Some(s) => Some(s@),
        None => None,
    }
}

/// Whether `wt` is the worktree the session is rooted at: its path equals
/// `repo_root` (never, without a root). Paths are compared as given, so
/// callers pass canonical paths (symlinks resolved, as the terminal side's
/// `canonical` does); two spellings of one directory otherwise differ.
pub fn is_current_worktree(repo_root: Option<&str>, wt: &WorktreeEntry) -> (b: bool)
    ensures
        b == is_current_spec(opt_str_view(repo_root), wt.path@),
{
    match repo_root {
        Some(root) => crate::text::str_eq(root, wt.path.as_str()),
        None => false,
    }
}

/// The first index whose flag is set, or 0 when none is.
pub open spec fn first_or_zero(flags: Seq<bool>) -> int {
    if exists|i: int| 0 <= i < flags.len() && flags[i] {
        choose|i: int| 0 <= i < flags.len() && flags[i] && forall|j: int| 0 <= j < i ==> !flags[j]
    } else {
        0
    }
}

/// Which branches are checked out here.
pub open spec fn current_flags(branches: Seq<LocalBranch>) -> Seq<bool> {
    branches.map_values(|b: LocalBranch| b.is_current)
}

/// Which worktrees are the one rooted at `repo_root`.
pub open spec fn worktree_flags(worktrees: Seq<WorktreeEntry>, repo_root: Option<Seq<char>>) -> Seq<
    bool,
> {
    worktrees.map_values(|w: WorktreeEntry| is_current_spec(repo_root, w.path@))
}

/// Pins `first_or_zero` to a found first index, or to 0 when none was found.
proof fn lemma_first_or_zero(flags: Seq<bool>, r: int, found: bool)
    requires
        found ==> 0 <= r < flags.len() && flags[r] && forall|j: int| 0 <= j < r ==> !flags[j],
        !found ==> r == 0 && forall|j: int| 0 <= j < flags.len() ==> !flags[j],
    ensures
        first_or_zero(flags) == r,
{
    if found {
        let c = choose|i: int|
            0 <= i < flags.len() && flags[i] && forall|j: int| 0 <= j < i ==> !flags[j];
        assert(0 <= c < flags.len() && flags[c] && forall|j: int| 0 <= j < c ==> !flags[j]);
        if c < r {
            assert(!flags[c]);
        }
        if r < c {
            assert(!flags[r]);
        }
    }
}

/// The index of the first current branch, or 0.
fn first_current_branch(branches: &Vec<LocalBranch>) -> (r: usize)
    ensures
        r == first_or_zero(current_flags(branches@)),
{
    let ghost flags = current_flags(branches@);
    let mut i: usize = 0;
    while i < branches.len()
        invariant
            i <= branches.len(),
            flags == current_flags(branches@),
            forall|j: int| 0 <= j < i ==> !flags[j],
        decreases branches.len() - i,
    {
        if branches[i].is_current {
            proof {
                lemma_first_or_zero(flags, i as int, true);
            }
            return i;
        }
        i = i + 1;
    }
    proof {
        lemma_first_or_zero(flags, 0, false);
    }
    0
}

/// The index of the first worktree rooted at `repo_root`, or 0.
fn first_current_worktree(worktrees: &Vec<WorktreeEntry>, repo_root: Option<&str>) -> (r: usize)
    ensures
        r == first_or_zero(worktree_flags(worktrees@, opt_str_view(repo_root))),
{
    let ghost flags = worktree_flags(worktrees@, opt_str_view(repo_root));
    let mut i: usize = 0;
    while i < worktrees.len()
        invariant
            i <= worktrees.len(),
            flags == worktree_flags(worktrees@, opt_str_view(repo_root)),
            forall|j: int| 0 <= j < i ==> !flags[j],
        decreases worktrees.len() - i,
    {
        if is_current_worktree(repo_root, &worktrees[i]) {
            proof {
                lemma_first_or_zero(flags, i as int, true);
            }
            return i;
        }
        i = i + 1;
    }
    proof {
        lemma_first_or_zero(flags, 0, false);
    }
    0
}

/// A worktree's filterable label: its path, a space and its branch (empty
/// when detached).
pub open spec fn worktree_label(wt: WorktreeEntry) -> Seq<char> {
    wt.path@ + seq![' '] + match wt.branch {
        Some(b) => b@,
        None => Seq::<char>::empty(),
    }
}

impl SwitcherState {
    /// The active tab's row count.
    pub open spec fn active_len(&self) -> int {
        match self.tab {
            SwitcherTab::Branches => self.branches@.len() as int,
            SwitcherTab::Worktrees => self.worktrees@.len() as int,
        }
    }

    /// The active tab's cursor.
    pub open spec fn active_cursor(&self) -> int {
        match self.tab {
            SwitcherTab::Branches => self.branch_cursor as int,
            SwitcherTab::Worktrees => self.worktree_cursor as int,
        }
    }

    /// This state with the active tab's cursor set to `c` and everything
    /// else, the other tab's cursor included, unchanged.
    pub open spec fn with_active_cursor(self, c: usize) -> SwitcherState {
        match self.tab {
            SwitcherTab::Branches => SwitcherState { branch_cursor: c, ..self },
            SwitcherTab::Worktrees => SwitcherState { worktree_cursor: c, ..self },
        }
    }

    /// Builds switcher state from freshly read lists, starting each tab's
    /// cursor on the current branch/worktree (the top row when none is
    /// current), on the Branches tab. `panel_cursor` is kept verbatim.
    pub fn new(
        branches: Vec<LocalBranch>,
        worktrees: Vec<WorktreeEntry>,
        repo_root: Option<&str>,
        panel_cursor: usize,
    ) -> (s: SwitcherState)
        ensures
            s.tab == SwitcherTab::Branches,
            s.branches == branches,
            s.worktrees == worktrees,
            s.branch_cursor == first_or_zero(current_flags(branches@)),
            s.worktree_cursor == first_or_zero(worktree_flags(worktrees@, opt_str_view(repo_root))),
            s.panel_cursor == panel_cursor,
    {
        let branch_cursor = first_current_branch(&branches);
        let worktree_cursor = first_current_worktree(&worktrees, repo_root);
        SwitcherState {
            tab: SwitcherTab::Branches,
            branches,
            worktrees,
            branch_cursor,
            worktree_cursor,
            panel_cursor,
        }
    }

    /// Switches between the Branches and Worktrees tabs.
    pub fn toggle_tab(&mut self)
        ensures
            final(self).tab == (match old(self).tab {
                SwitcherTab::Branches => SwitcherTab::Worktrees,
                SwitcherTab::Worktrees => SwitcherTab::Branches,
            }),
            *final(self) == (SwitcherState { tab: final(self).tab, ..*old(self) }),
    {
        self.tab = match self.tab {
            SwitcherTab::Branches => SwitcherTab::Worktrees,
            SwitcherTab::Worktrees => SwitcherTab::Branches,
        };
    }

    /// The active tab's filterable labels, one per row: branch names, or a
    /// worktree's path, a space and its branch (empty when detached).
    pub fn active_labels(&self) -> (labels: Vec<String>)
        ensures
            labels@.len() == self.active_len(),
            forall|i: int| 0 <= i < labels@.len() ==> (#[trigger] labels@[i])@ == match self.tab {
                SwitcherTab::Branches => self.branches@[i].name@,
                SwitcherTab::Worktrees => worktree_label(self.worktrees@[i]),
            },
    {
        let mut out: Vec<String> = Vec::new();
        match self.tab {
            SwitcherTab::Branches => {
                let mut i: usize = 0;
                while i < self.branches.len()
                    invariant
                        self.tab == SwitcherTab::Branches,
                        i <= self.branches@.len(),
                        out@.len() == i,
                        forall|k: int| 0 <= k < i ==> (#[trigger] out@[k])@ == self.branches@[k].name@,
                    decreases self.branches.len() - i,
                {
                    out.push(self.branches[i].name.clone());
                    i = i + 1;
                }
            },
            SwitcherTab::Worktrees => {
                let mut i: usize = 0;
                while i < self.worktrees.len()
                    invariant
                        self.tab == SwitcherTab::Worktrees,
                        i <= self.worktrees@.len(),
                        out@.len() == i,
                        forall|k: int| 0 <= k < i ==> (#[trigger] out@[k])@ == worktree_label(self.worktrees@[k]),
                    decreases self.worktrees.len() - i,
                {
                    let wt = &self.worktrees[i];
                    let mut label = wt.path.clone();
                    push_char(&mut label, ' ');
                    match &wt.branch {
                        Some(b) => push_all(&mut label, b.as_str()),
                        None => {},
                    }
                    assert(label@ =~= worktree_label(*wt));
                    out.push(label);
                    i = i + 1;
                }
            },
        }
        out
    }

    fn active_len_exec(&self) -> (n: usize)
        ensures
            n == self.active_len(),
    {
        match self.tab {
            SwitcherTab::Branches => self.branches.len(),
            SwitcherTab::Worktrees => self.worktrees.len(),
        }
    }

    fn active_cursor_exec(&self) -> (c: usize)
        ensures
            c == self.active_cursor(),
    {
        match self.tab {
            SwitcherTab::Branches => self.branch_cursor,
            SwitcherTab::Worktrees => self.worktree_cursor,
        }
    }

    fn set_active_cursor(&mut self, c: usize)
        ensures
            *final(self) == old(self).with_active_cursor(c),
    {
        match self.tab {
            SwitcherTab::Branches => self.branch_cursor = c,
            SwitcherTab::Worktrees => self.worktree_cursor = c,
        }
    }

    /// Moves the active tab's cursor down one row, clamped at the last (or
    /// pinned at 0 on an empty list).
    pub fn move_down(&mut self)
        ensures
            *final(self) == old(self).with_active_cursor(
                step_spec(old(self).active_cursor(), old(self).active_len(), 1, true) as usize,
            ),
    {
        let len = self.active_len_exec();
        let c = step(self.active_cursor_exec(), len, 1, true);
        self.set_active_cursor(c);
    }

    /// Moves the active tab's cursor up one row, clamped at the first.
    pub fn move_up(&mut self)
        ensures
            *final(self) == old(self).with_active_cursor(
                (if old(self).active_cursor() > 0 {
                    old(self).active_cursor() - 1
                } else {
                    0
                }) as usize,
            ),
    {
        let c = self.active_cursor_exec();
        self.set_active_cursor(if c > 0 {
            c - 1
        } else {
            0
        });
    }

    /// Steps the active tab's cursor by `delta` rows, clamped at both ends.
    fn step_by(&mut self, delta: usize, down: bool)
        ensures
            *final(self) == old(self).with_active_cursor(
                step_spec(old(self).active_cursor(), old(self).active_len(), delta as int, down)
                    as usize,
            ),
    {
        let len = self.active_len_exec();
        let c = step(self.active_cursor_exec(), len, delta, down);
        self.set_active_cursor(c);
    }

    /// Moves the active tab's cursor down half a viewport of
    /// `viewport_height` rows.
    pub fn half_page_down(&mut self, viewport_height: usize)
        ensures
            *final(self) == old(self).with_active_cursor(
                step_spec(
                    old(self).active_cursor(),
                    old(self).active_len(),
                    if viewport_height / 2 == 0 { 1 } else { (viewport_height / 2) as int },
                    true,
                ) as usize,
            ),
    {
        self.step_by(half_page(viewport_height), true);
    }

    /// Moves the active tab's cursor up half a viewport.
    pub fn half_page_up(&mut self, viewport_height: usize)
        ensures
            *final(self) == old(self).with_active_cursor(
                step_spec(
                    old(self).active_cursor(),
                    old(self).active_len(),
                    if viewport_height / 2 == 0 { 1 } else { (viewport_height / 2) as int },
                    false,
                ) as usize,
            ),
    {
        self.step_by(half_page(viewport_height), false);
    }

    /// Moves the active tab's cursor down a full viewport.
    pub fn full_page_down(&mut self, viewport_height: usize)
        ensures
            *final(self) == old(self).with_active_cursor(
                step_spec(
                    old(self).active_cursor(),
                    old(self).active_len(),
                    if viewport_height == 0 { 1 } else { viewport_height as int },
                    true,
                ) as usize,
            ),
    {
        self.step_by(full_page(viewport_height), true);
    }

    /// Moves the active tab's cursor up a full viewport.
    pub fn full_page_up(&mut self, viewport_height: usize)
        ensures
            *final(self) == old(self).with_active_cursor(
                step_spec(
                    old(self).active_cursor(),
                    old(self).active_len(),
                    if viewport_height == 0 { 1 } else { viewport_height as int },
                    false,
                ) as usize,
            ),
    {
        self.step_by(full_page(viewport_height), false);
    }

    /// Jumps the active tab's cursor to its first row.
    pub fn jump_to_top(&mut self)
        ensures
            *final(self) == old(self).with_active_cursor(0),
    {
        self.set_active_cursor(jump_top());
    }

    /// Jumps the active tab's cursor to its last row (0 on an empty list).
    pub fn jump_to_bottom(&mut self)
        ensures
            *final(self) == old(self).with_active_cursor(
                (if old(self).active_len() == 0 {
                    0
                } else {
                    old(self).active_len() - 1
                }) as usize,
            ),
    {
        let len = self.active_len_exec();
        self.set_active_cursor(jump_bottom(len));
    }
}

/// What a confirm in the switcher asks of the caller next.
#[derive(Debug, Clone, PartialEq, Eq)]
pub enum SwitchStep {
    /// Nothing more: the outcome is in the footer.
    Done,
    /// The branch switched: reload the review.
    Refresh,
    /// Re-root the session onto the worktree at this path, then hand the
    /// outcome to [`App::finish_worktree_switch`].
    Reroot(String),
}

/// The footer message of a branch switch to `name` that gave back `result`.
pub open spec fn switch_text(name: Seq<char>, result: Result<(), GitError>) -> Seq<char> {
    match result {
        Ok(_) => "switched to "@ + name + " (annotations kept)"@,
        Err(_) => "switch failed \u{2014} see command log (@)"@,
    }
}

/// The footer message of a re-root that gave back `result`.
pub open spec fn reroot_text(result: Result<(), String>) -> Seq<char> {
    match result {
        Ok(_) => "re-rooted (annotations kept)"@,
        Err(e) => "re-root failed: "@ + e@,
    }
}

/// The switcher's selected branch, if its cursor is on one.
pub open spec fn selected_branch(s: SwitcherState) -> Option<LocalBranch> {
    if s.branch_cursor < s.branches@.len() {
        Some(s.branches@[s.branch_cursor as int])
    } else {
        None
    }
}

/// The switcher's selected worktree, if its cursor is on one.
pub open spec fn selected_worktree(s: SwitcherState) -> Option<WorktreeEntry> {
    if s.worktree_cursor < s.worktrees@.len() {
        Some(s.worktrees@[s.worktree_cursor as int])
    } else {
        None
    }
}

/// How the Branches tab's `Enter` left `new` from `old` (`ok` when the
/// switch went through, `no_backend` when there was no git backend): the
/// current branch is refused with a footer message and no git run, the
/// modal left open; so is a missing backend; otherwise the switch runs and
/// ends as [`App::finish_branch_switch`] says. Nothing happens without an
/// open switcher or a selected branch.
pub open spec fn branch_confirmed(old: App, new: App, no_backend: bool, ok: bool) -> bool {
    &&& !ok ==> new.switcher == old.switcher
    &&& (old.switcher is None || selected_branch(old.switcher->0) is None) ==> !ok && new == old
    &&& old.switcher is Some && selected_branch(old.switcher->0) is Some ==> {
        let b = selected_branch(old.switcher->0)->0;
        if b.is_current {
            &&& !ok
            &&& new.message() == Some("already on "@ + b.name@)
            &&& new == (App { status_message: new.status_message, ..old })
        } else if no_backend {
            &&& !ok
            &&& new.message() == Some(no_backend_switcher_text())
            &&& new == (App { status_message: new.status_message, ..old })
        } else {
            exists|r: Result<(), GitError>|
                {
                    &&& ok == (r is Ok)
                    &&& switch_entry_matches(new.command_log@.last(), b.name@, r)
                    &&& new.command_log@.len() == old.command_log@.len() + 1
                    &&& new.message() == Some(#[trigger] switch_text(b.name@, r))
                }
        }
    }
}

/// How the Worktrees tab's `Enter` left `new` from `old` with `step`: a
/// bare worktree and the session's own worktree are refused with a footer
/// message, the modal left open; otherwise the caller is asked to re-root
/// onto the selected worktree's path. Nothing happens without an open
/// switcher or a selected worktree.
pub open spec fn worktree_confirmed(old: App, new: App, step: SwitchStep) -> bool {
    &&& (old.switcher is None || selected_worktree(old.switcher->0) is None) ==> step == SwitchStep::Done
        && new == old
    &&& old.switcher is Some && selected_worktree(old.switcher->0) is Some ==> {
        let w = selected_worktree(old.switcher->0)->0;
        if w.bare {
            &&& step == SwitchStep::Done
            &&& new.message() == Some("cannot re-root onto a bare worktree"@)
            &&& new == (App { status_message: new.status_message, ..old })
        } else if is_current_spec(crate::app::opt_string_view(old.repo_root), w.path@) {
            &&& step == SwitchStep::Done
            &&& new.message() == Some("already in this worktree"@)
            &&& new == (App { status_message: new.status_message, ..old })
        } else {
            &&& step == SwitchStep::Reroot(w.path)
            &&& new == old
        }
    }
}

impl App {
    /// Ends a switch to branch `name` that gave back `result`: the attempt
    /// is logged either way (see [`switch_entry_matches`]); on success the
    /// switcher closes (see [`App::close_switcher`]); the footer says how it
    /// went (see [`switch_text`]). Returns whether the branch switched, so
    /// that the caller reloads the review.
    pub fn finish_branch_switch(&mut self, name: &str, result: Result<(), GitError>) -> (ok: bool)
        ensures
            ok == (result is Ok),
            final(self).command_log@.len() == old(self).command_log@.len() + 1,
            final(self).command_log@.take(old(self).command_log@.len() as int)
                == old(self).command_log@,
            switch_entry_matches(final(self).command_log@.last(), name@, result),
            final(self).message() == Some(switch_text(name@, result)),
            *final(self) == (App {
                command_log: final(self).command_log,
                status_message: final(self).status_message,
                switcher: if ok {
                    None
                } else {
                    old(self).switcher
                },
                mode: if ok {
                    old(self).panel_mode_at(
                        match old(self).switcher {
                            Some(s) => s.panel_cursor,
                            None => 0,
                        },
                    )
                } else {
                    old(self).mode
                },
                ..*old(self)
            }),
    {
        let entry = branch_switch_log_entry(name, &result);
        let ghost log0 = self.command_log@;
        self.command_log.push(entry);
        assert(self.command_log@.take(log0.len() as int) =~= log0);
        proof {
            reveal_strlit("switched to ");
            reveal_strlit(" (annotations kept)");
            reveal_strlit("switch failed \u{2014} see command log (@)");
        }
        match result {
            Ok(()) => {
                self.close_switcher();
                self.status_message = Some(concat3("switched to ", name, " (annotations kept)"));
                true
            },
            Err(_) => {
                self.status_message = Some(String::from_str("switch failed \u{2014} see command log (@)"));
                false
            },
        }
    }

    /// The Branches tab's `Enter`: switches to the selected branch through
    /// `ops` and ends as [`App::finish_branch_switch`] says. The current
    /// branch is refused with a footer message and no git run, the modal
    /// left open; so is a missing backend. Nothing happens without an open
    /// switcher or a selected branch.
    pub fn confirm_branch_switch<O: StageOps>(&mut self, ops: Option<&O>) -> (ok: bool)
        ensures
            branch_confirmed(*old(self), *final(self), ops is None, ok),
    {
        let name = match &self.switcher {
            Some(s) => {
                if s.branch_cursor >= s.branches.len() {
                    return false;
                }
                let b = &s.branches[s.branch_cursor];
                if b.is_current {
                    let m = concat2("already on ", b.name.as_str());
                    proof {
                        reveal_strlit("already on ");
                    }
                    self.status_message = Some(m);
                    return false;
                }
                b.name.clone()
            },
            None => {
                return false;
            },
        };
        let ops = match ops {
            Some(o) => o,
            None => {
                self.status_message = Some(String::from_str("switcher unavailable (no git backend)"));
                proof {
                    reveal_strlit("switcher unavailable (no git backend)");
                }
                return false;
            },
        };
        let result = ops.switch_branch(name.as_str());
        let ghost r = result;
        let ok = self.finish_branch_switch(name.as_str(), result);
        assert(final(self).message() == Some(switch_text(name@, r)));
        ok
    }

    /// The Worktrees tab's `Enter`: a bare worktree (nothing to review) and
    /// the session's own worktree are refused with a footer message, the
    /// modal left open; otherwise the caller is asked to re-root onto the
    /// selected worktree's path. Nothing happens without an open switcher
    /// or a selected worktree.
    pub fn confirm_worktree_switch(&mut self) -> (step: SwitchStep)
        ensures
            worktree_confirmed(*old(self), *final(self), step),
    {
        let s = match &self.switcher {
            Some(s) => s,
            None => {
                return SwitchStep::Done;
            },
        };
        if s.worktree_cursor >= s.worktrees.len() {
            return SwitchStep::Done;
        }
        let w = &s.worktrees[s.worktree_cursor];
        if w.bare {
            self.status_message = Some(String::from_str("cannot re-root onto a bare worktree"));
            proof {
                reveal_strlit("cannot re-root onto a bare worktree");
            }
            return SwitchStep::Done;
        }
        let current = match &self.repo_root {
            Some(root) => is_current_worktree(Some(root.as_str()), w),
            None => is_current_worktree(None, w),
        };
        if current {
            self.status_message = Some(String::from_str("already in this worktree"));
            proof {
                reveal_strlit("already in this worktree");
            }
            return SwitchStep::Done;
        }
        SwitchStep::Reroot(w.path.clone())
    }

    /// Ends a re-root onto a worktree that gave back `result`: the switcher
    /// closes either way, and the footer says how it went (see
    /// [`reroot_text`]).
    pub fn finish_worktree_switch(&mut self, result: Result<(), String>)
        ensures
            final(self).message() == Some(reroot_text(result)),
            *final(self) == (App {
                status_message: final(self).status_message,
                switcher: None,
                mode: old(self).panel_mode_at(
                    match old(self).switcher {
                        Some(s) => s.panel_cursor,
                        None => 0,
                    },
                ),
                ..*old(self)
            }),
    {
        self.close_switcher();
        proof {
            reveal_strlit("re-rooted (annotations kept)");
            reveal_strlit("re-root failed: ");
        }
        match result {
            Ok(()) => {
                self.status_message = Some(String::from_str("re-rooted (annotations kept)"));
            },
            Err(e) => {
                self.status_message = Some(concat2("re-root failed: ", e.as_str()));
            },
        }
    }

    /// The switcher's `Enter`: dispatches on the active tab to
    /// [`App::confirm_branch_switch`] or [`App::confirm_worktree_switch`];
    /// nothing happens without an open switcher.
    pub fn switcher_confirm<O: StageOps>(&mut self, ops: Option<&O>) -> (step: SwitchStep)
        ensures
            old(self).switcher is None ==> step == SwitchStep::Done && *final(self) == *old(self),
            old(self).switcher matches Some(sw) ==> match sw.tab {
                SwitcherTab::Branches => (step == SwitchStep::Refresh || step == SwitchStep::Done)
                    && branch_confirmed(*old(self), *final(self), ops is None, step == SwitchStep::Refresh),
                SwitcherTab::Worktrees => worktree_confirmed(*old(self), *final(self), step),
            },
    {
        let tab = match &self.switcher {
            Some(s) => s.tab,
            None => {
                return SwitchStep::Done;
            },
        };
        match tab {
            SwitcherTab::Branches => if self.confirm_branch_switch(ops) {
                SwitchStep::Refresh
            } else {
                SwitchStep::Done
            },
            SwitcherTab::Worktrees => self.confirm_worktree_switch(),
        }
    }
}

/// How many characters of a detached worktree's head are shown.
pub const SHORT_HEAD_LEN: usize = 7;

/// A worktree's primary badge: `bare`, its branch, `detached @ <short
/// head>` (`?` without a head), or `unknown`.
pub open spec fn badge_spec(wt: WorktreeEntry) -> Seq<char> {
    if wt.bare {
        "bare"@
    } else if wt.branch is Some {
        wt.branch->0@
    } else if wt.detached {
        "detached @ "@ + match wt.head {
            Some(h) => if h@.len() <= SHORT_HEAD_LEN {
                h@
            } else {
                h@.take(SHORT_HEAD_LEN as int)
            },
            None => "?"@,
        }
    } else {
        "unknown"@
    }
}

/// A worktree's primary badge (see [`badge_spec`]).
pub fn worktree_badge(wt: &WorktreeEntry) -> (s: String)
    ensures
        s@ == badge_spec(*wt),
{
    proof {
        reveal_strlit("bare");
        reveal_strlit("detached @ ");
        reveal_strlit("?");
        reveal_strlit("unknown");
    }
    if wt.bare {
        String::from_str("bare")
    } else if let Some(b) = &wt.branch {
        b.clone()
    } else if wt.detached {
        let mut s = String::from_str("detached @ ");
        match &wt.head {
            Some(h) => {
                let cs = crate::text::chars_of(h.as_str());
                let n = if cs.len() <= SHORT_HEAD_LEN {
                    cs.len()
                } else {
                    SHORT_HEAD_LEN
                };
                let mut k: usize = 0;
                let ghost s0 = s@;
                while k < n
                    invariant
                        k <= n <= cs@.len(),
                        s@ == s0 + cs@.take(k as int),
                    decreases n - k,
                {
                    crate::text::push_char(&mut s, cs[k]);
                    k = k + 1;
                    assert(s@ =~= s0 + cs@.take(k as int));
                }
                assert(cs@.take(n as int) =~= (if h@.len() <= SHORT_HEAD_LEN {
                    h@
                } else {
                    h@.take(SHORT_HEAD_LEN as int)
                }));
            },
            None => push_all(&mut s, "?"),
        }
        s
    } else {
        String::from_str("unknown")
    }
}

/// One secondary badge: the word, with `: <reason>` when the reason is
/// not empty.
pub open spec fn reason_badge(word: Seq<char>, reason: Seq<char>) -> Seq<char> {
    if reason.len() == 0 {
        word
    } else {
        word + ": "@ + reason
    }
}

/// A worktree's dimmed secondary badges: locked, then prunable, each only
/// when it applies.
pub open spec fn extra_badges_spec(wt: WorktreeEntry) -> Seq<Seq<char>> {
    (match wt.locked {
        Some(r) => seq![reason_badge("locked"@, r@)],
        None => Seq::<Seq<char>>::empty(),
    }) + (match wt.prunable {
        Some(r) => seq![reason_badge("prunable"@, r@)],
        None => Seq::<Seq<char>>::empty(),
    })
}

fn badge_with_reason(word: &str, reason: &String) -> (s: String)
    ensures
        s@ == reason_badge(word@, reason@),
{
    if crate::text::chars_of(reason.as_str()).len() == 0 {
        crate::annotate::copy_str(word)
    } else {
        proof {
            reveal_strlit(": ");
        }
        concat3(word, ": ", reason.as_str())
    }
}

/// A worktree's secondary badges (see [`extra_badges_spec`]).
pub fn worktree_extra_badges(wt: &WorktreeEntry) -> (badges: Vec<String>)
    ensures
        badges@.map_values(|b: String| b@) == extra_badges_spec(*wt),
{
    proof {
        reveal_strlit("locked");
        reveal_strlit("prunable");
    }
    let mut badges: Vec<String> = Vec::new();
    if let Some(reason) = &wt.locked {
        badges.push(badge_with_reason("locked", reason));
    }
    let ghost first = badges@.map_values(|b: String| b@);
    if let Some(reason) = &wt.prunable {
        badges.push(badge_with_reason("prunable", reason));
    }
    assert(badges@.map_values(|b: String| b@) =~= extra_badges_spec(*wt));
    badges
}

} // verus!
