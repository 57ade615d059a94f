//! The restore confirmation modal. Asking to restore a file opens a modal
//! over the file under the cursor, frozen at that moment; only a confirm
//! reaches git, and it runs exactly the operation the question named on
//! that frozen file (a delete for an untracked file, a restore from `HEAD`
//! otherwise, over both halves of a rename in one invocation). Every exit
//! goes back where the modal was opened from.
use vstd::prelude::*;

use crate::app::{App, Mode, ModeOrigin, capture_spec, concat2, restore_spec};
use crate::diff::{FileChangeKind, FileDiff};
use crate::git::{DiffTarget, GitError, RawFilePatch, RestoreScope, StagingMode, git_error_text};
use crate::stage_ops::{StageOps, StagedState};
use crate::text::str_eq;

verus! {

/// What the restore modal asks about: the file frozen when it opened.
#[derive(Debug, Clone, PartialEq, Eq)]
pub struct RestoreRequest {
    /// The file's path.
    pub path: String,
    /// A rename's original path, restored together with `path`.
    pub old_path: Option<String>,
    /// Whether the file is untracked, so that a confirm deletes it.
    pub untracked: bool,
    /// What a confirm restores.
    pub scope: RestoreScope,
}

impl RestoreRequest {
    /// A copy of this request.
    pub fn duplicate(&self) -> (r: RestoreRequest)
        ensures
            r == *self,
    {
        RestoreRequest {
            path: self.path.clone(),
            old_path: crate::git::clone_opt_string(&self.old_path),
            untracked: self.untracked,
            scope: self.scope,
        }
    }
}

/// What a confirm does with a request: delete an untracked file, or
/// restore paths from `HEAD` in one invocation.
#[derive(Debug, Clone, PartialEq, Eq)]
pub enum RestoreAction {
    /// Delete the untracked file at this path.
    Discard(String),
    /// Restore these paths over this scope.
    Restore(Vec<String>, RestoreScope),
}

/// The message shown when restoring is asked for on a read-only target.
pub open spec fn read_only_text() -> Seq<char> {
    "read-only diff target"@
}

/// The message shown when restoring is asked for without a git backend.
pub open spec fn no_backend_restore_text() -> Seq<char> {
    "restore unavailable (no git backend)"@
}

/// Whether some entry of `ps` is the path `p`.
pub open spec fn lists_path(ps: Seq<String>, p: Seq<char>) -> bool {
    exists|i: int| 0 <= i < ps.len() && ps[i]@ == p
}

/// Whether some entry of `ps` is the path `p`.
fn lists(ps: &Vec<String>, p: &str) -> (b: bool)
    ensures
        b == lists_path(ps@, p@),
{
    let mut i: usize = 0;
    while i < ps.len()
        invariant
            i <= ps@.len(),
            forall|j: int| 0 <= j < i ==> ps@[j]@ != p@,
        decreases ps.len() - i,
    {
        if str_eq(ps[i].as_str(), p) {
            return true;
        }
        i = i + 1;
    }
    false
}

/// The index of the file the diff cursor is on.
pub open spec fn cursor_file(app: App) -> int {
    if app.view.cursor < app.view.file_of_row@.len() {
        app.view.file_of_row@[app.view.cursor as int] as int
    } else {
        0
    }
}

/// What a restore under `t` puts back: the staged view restores the index
/// only, every other writable view both the index and the working tree.
pub open spec fn scope_for(t: DiffTarget) -> RestoreScope {
    if t is Staged {
        RestoreScope::IndexOnly
    } else {
        RestoreScope::IndexAndWorktree
    }
}

/// The request the modal freezes for file `f` of `app`.
pub open spec fn request_for(app: App, f: FileDiff) -> RestoreRequest {
    RestoreRequest {
        path: f.path,
        old_path: if f.kind is Renamed {
            f.old_path
        } else {
            None
        },
        untracked: lists_path(app.untracked_paths@, f.path@),
        scope: scope_for(app.target),
    }
}

/// An action as plain values.
pub enum ActionV {
    /// Delete the untracked file at this path.
    Discard(String),
    /// Restore these paths over this scope.
    Restore(Seq<String>, RestoreScope),
}

/// The view of an action.
pub open spec fn action_view(a: RestoreAction) -> ActionV {
    match a {
        RestoreAction::Discard(p) => ActionV::Discard(p),
        RestoreAction::Restore(ps, s) => ActionV::Restore(ps@, s),
    }
}

/// The action a confirm of `req` runs: delete an untracked file, else
/// restore its path (and a rename's original path) over its scope.
pub open spec fn action_spec(req: RestoreRequest) -> ActionV {
    if req.untracked {
        ActionV::Discard(req.path)
    } else {
        ActionV::Restore(
            match req.old_path {
                Some(o) => seq![req.path, o],
                None => seq![req.path],
            },
            req.scope,
        )
    }
}

/// The mode a confirm returns to: where the modal was opened from, except
/// that a Visual selection is dropped (the refresh that follows rebuilds
/// the rows it was anchored in).
pub open spec fn after_confirm(origin: ModeOrigin) -> Mode {
    match origin {
        ModeOrigin::Visual { .. } => Mode::Normal,
        _ => restore_spec(origin),
    }
}

/// The mode the restore modal was opened from.
pub open spec fn opened_from(m: Mode) -> ModeOrigin {
    match m {
        Mode::ConfirmRestore { origin } => origin,
        _ => ModeOrigin::Normal,
    }
}

/// The footer message a confirm of `req` ends with, given what git gave
/// back: the past tense of the operation and the path, or the error.
pub open spec fn outcome_text(req: RestoreRequest, result: Result<(), GitError>) -> Seq<char> {
    match result {
        Ok(_) => if req.untracked {
            "deleted "@ + req.path@
        } else if req.scope == RestoreScope::IndexOnly {
            "unstaged "@ + req.path@
        } else {
            "restored "@ + req.path@
        },
        Err(e) => git_error_text(e),
    }
}

/// Whether file `i` has no raw patch behind it (a synthetic entry).
pub open spec fn synthetic(patches: Seq<Option<RawFilePatch>>, i: int) -> bool {
    i >= patches.len() || patches[i] is None
}

/// The paths of the first `n` files of `files` that are untracked: a
/// synthetic entry with no staged changes at all.
pub open spec fn untracked_of(
    files: Seq<FileDiff>,
    patches: Seq<Option<RawFilePatch>>,
    staged: Map<Seq<char>, StagedState>,
    n: int,
) -> Seq<String>
    decreases n,
{
    if n <= 0 {
        seq![]
    } else if synthetic(patches, n - 1) && !staged.dom().contains(files[n - 1].path@) {
        untracked_of(files, patches, staged, n - 1).push(files[n - 1].path)
    } else {
        untracked_of(files, patches, staged, n - 1)
    }
}

/// The action a confirm of `req` runs (see [`action_spec`]).
pub fn restore_action(req: &RestoreRequest) -> (a: RestoreAction)
    ensures
        action_view(a) == action_spec(*req),
{
    if req.untracked {
        RestoreAction::Discard(req.path.clone())
    } else {
        let mut ps: Vec<String> = Vec::new();
        ps.push(req.path.clone());
        if let Some(o) = &req.old_path {
            ps.push(o.clone());
            assert(ps@ =~= seq![req.path, *o]);
        } else {
            assert(ps@ =~= seq![req.path]);
        }
        RestoreAction::Restore(ps, req.scope)
    }
}

/// Runs `action` against the backend.
fn run_action<O: StageOps>(ops: &O, action: &RestoreAction) -> Result<(), GitError> {
    match action {
        RestoreAction::Discard(p) => ops.discard_untracked_file(p.as_str()),
        RestoreAction::Restore(ps, scope) => ops.restore_paths(ps.as_slice(), *scope),
    }
}

/// The footer message a confirm of `req` ends with (see [`outcome_text`]).
pub fn outcome_message(req: &RestoreRequest, result: &Result<(), GitError>) -> (s: String)
    ensures
        s@ == outcome_text(*req, *result),
{
    match result {
        Ok(_) => if req.untracked {
            concat2("deleted ", req.path.as_str())
        } else if matches!(req.scope, RestoreScope::IndexOnly) {
            concat2("unstaged ", req.path.as_str())
        } else {
            concat2("restored ", req.path.as_str())
        },
        Err(e) => e.message(),
    }
}

/// `app` with the restore modal open over the file under its cursor,
/// remembering the mode it was opened from.
pub open spec fn opened_spec(app: App) -> App {
    App {
        mode: Mode::ConfirmRestore { origin: capture_spec(app.mode) },
        restore_request: Some(request_for(app, app.view.files@[cursor_file(app)])),
        ..app
    }
}

/// `app` after a cancel: back to the mode the modal was opened from, with
/// no request; unchanged outside the modal.
pub open spec fn cancelled_spec(app: App) -> App {
    match app.mode {
        Mode::ConfirmRestore { origin } => App { mode: restore_spec(origin), restore_request: None, ..app },
        _ => app,
    }
}

/// Cancelling the restore modal right after opening it gives back the
/// session exactly as it was, from Normal, Visual or the git panel: the
/// same mode (a Visual anchor and the panel's cursor and tab included) and
/// no request.
pub proof fn lemma_cancel_returns_where_opened(app: App)
    requires
        app.mode is Normal || app.mode is Visual || app.mode is Panel,
        app.restore_request is None,
    ensures
        cancelled_spec(opened_spec(app)) == app,
{
}

/// Confirming the restore modal lands in the mode it was opened from, from
/// Normal or the git panel; from Visual it lands in Normal, the selection
/// dropped.
pub proof fn lemma_confirm_returns_where_opened(mode: Mode)
    requires
        mode is Normal || mode is Visual || mode is Panel,
    ensures
        after_confirm(capture_spec(mode)) == if mode is Visual {
            Mode::Normal
        } else {
            mode
        },
{
}

impl App {
    /// Opens the restore modal over the file under the cursor, freezing it
    /// as the request (see [`request_for`]) and remembering the mode it was
    /// opened from. Refused with a footer message on a read-only target or
    /// without a git backend; nothing happens when no file is under the
    /// cursor. Never runs git.
    pub fn open_confirm_restore<O: StageOps>(&mut self, ops: Option<&O>)
        requires
            old(self).wf(),
        ensures
            final(self).wf(),
            old(self).target.staging_mode_spec() == StagingMode::ReadOnly ==> {
                &&& final(self).message() == Some(read_only_text())
                &&& *final(self) == (App { status_message: final(self).status_message, ..*old(self) })
            },
            old(self).target.staging_mode_spec() != StagingMode::ReadOnly && ops is None ==> {
                &&& final(self).message() == Some(no_backend_restore_text())
                &&& *final(self) == (App { status_message: final(self).status_message, ..*old(self) })
            },
            old(self).target.staging_mode_spec() != StagingMode::ReadOnly && ops is Some ==> {
                *final(self) == if 0 <= cursor_file(*old(self)) < old(self).view.files@.len() {
                    opened_spec(*old(self))
                } else {
                    *old(self)
                }
            },
    {
        if matches!(self.target.staging_mode(), StagingMode::ReadOnly) {
            self.set_status_message(String::from_str("read-only diff target"));
            proof {
                reveal_strlit("read-only diff target");
            }
            return;
        }
        if ops.is_none() {
            self.set_status_message(String::from_str("restore unavailable (no git backend)"));
            proof {
                reveal_strlit("restore unavailable (no git backend)");
            }
            return;
        }
        let fi = self.view.file_of_cursor();
        if fi >= self.view.files.len() {
            return;
        }
        let f = &self.view.files[fi];
        let old_path = if matches!(f.kind, FileChangeKind::Renamed) {
            crate::git::clone_opt_string(&f.old_path)
        } else {
            None
        };
        let untracked = lists(&self.untracked_paths, f.path.as_str());
        let scope = if matches!(self.target, DiffTarget::Staged) {
            RestoreScope::IndexOnly
        } else {
            RestoreScope::IndexAndWorktree
        };
        let req = RestoreRequest { path: f.path.clone(), old_path, untracked, scope };
        let origin = crate::app::ModeOrigin::capture(self.mode);
        self.mode = Mode::ConfirmRestore { origin };
        self.restore_request = Some(req);
    }

    /// Closes the restore modal without running anything, back to the mode
    /// it was opened from (a Visual selection survives); outside the modal
    /// nothing happens.
    pub fn cancel_confirm_restore(&mut self)
        ensures
            *final(self) == cancelled_spec(*old(self)),
    {
        if let Mode::ConfirmRestore { origin } = self.mode {
            self.mode = origin.restore();
            self.restore_request = None;
        }
    }

    /// Closes the restore modal after its action ran with `result`: back to
    /// where it was opened from (see [`after_confirm`]), with the outcome in
    /// the footer (see [`outcome_text`]). Returns whether the action
    /// succeeded, so that the caller reloads the diff.
    pub fn finish_confirm_restore(
        &mut self,
        origin: ModeOrigin,
        req: &RestoreRequest,
        result: Result<(), GitError>,
    ) -> (ok: bool)
        ensures
            ok == (result is Ok),
            final(self).message() == Some(outcome_text(*req, result)),
            *final(self) == (App {
                mode: after_confirm(origin),
                restore_request: None,
                status_message: final(self).status_message,
                ..*old(self)
            }),
    {
        let message = outcome_message(req, &result);
        self.mode = match origin {
            ModeOrigin::Visual { .. } => Mode::Normal,
            _ => origin.restore(),
        };
        self.restore_request = None;
        self.status_message = Some(message);
        result.is_ok()
    }

    /// Confirms the restore modal: runs exactly the action of the request
    /// frozen when it opened (see [`action_spec`]) and closes it (see
    /// [`App::finish_confirm_restore`]). A missing request, or a missing
    /// backend, closes it without running anything; outside the modal
    /// nothing happens. Returns whether git ran and succeeded, so that the
    /// caller reloads the diff.
    pub fn confirm_confirm_restore<O: StageOps>(&mut self, ops: Option<&O>) -> (ok: bool)
        ensures
            !(old(self).mode is ConfirmRestore) ==> *final(self) == *old(self) && !ok,
            old(self).mode is ConfirmRestore && (old(self).restore_request is None || ops is None)
                ==> !ok && *final(self) == (App {
                mode: after_confirm(opened_from(old(self).mode)),
                restore_request: None,
                ..*old(self)
            }),
            old(self).mode is ConfirmRestore && old(self).restore_request is Some && ops is Some
                ==> exists|r: Result<(), GitError>|
                {
                    &&& ok == (r is Ok)
                    &&& final(self).message() == Some(
                        #[trigger] outcome_text(old(self).restore_request->0, r),
                    )
                    &&& *final(self) == (App {
                        mode: after_confirm(opened_from(old(self).mode)),
                        restore_request: None,
                        status_message: final(self).status_message,
                        ..*old(self)
                    })
                },
    {
        let origin = match self.mode {
            Mode::ConfirmRestore { origin } => origin,
            _ => {
                return false;
            },
        };
        let req = match &self.restore_request {
            Some(r) => r.duplicate(),
            None => {
                self.mode = match origin {
                    ModeOrigin::Visual { .. } => Mode::Normal,
                    _ => origin.restore(),
                };
                return false;
            },
        };
        assert(Some(req) == old(self).restore_request);
        match ops {
            None => {
                self.mode = match origin {
                    ModeOrigin::Visual { .. } => Mode::Normal,
                    _ => origin.restore(),
                };
                self.restore_request = None;
                false
            },
            Some(ops) => {
                let action = restore_action(&req);
                let result = run_action(ops, &action);
                let ghost r = result;
                let ok = self.finish_confirm_restore(origin, &req, result);
                assert(final(self).message() == Some(outcome_text(req, r)));
                ok
            },
        }
    }

    /// Re-derives the untracked paths: the files with no raw patch behind
    /// them and no staged changes at all (see [`untracked_of`]).
    pub fn recompute_untracked(&mut self)
        requires
            old(self).staged_states.wf(),
        ensures
            final(self).untracked_paths@ == untracked_of(
                old(self).view.files@,
                old(self).patches@,
                old(self).staged_states@,
                old(self).view.files@.len() as int,
            ),
            *final(self) == (App { untracked_paths: final(self).untracked_paths, ..*old(self) }),
    {
        let mut out: Vec<String> = Vec::new();
        let mut i: usize = 0;
        while i < self.view.files.len()
            invariant
                i <= self.view.files@.len(),
                self.staged_states.wf(),
                out@ == untracked_of(self.view.files@, self.patches@, self.staged_states@, i as int),
            decreases self.view.files.len() - i,
        {
            let path = &self.view.files[i].path;
            let synth = i >= self.patches.len() || self.patches[i].is_none();
            if synth && self.staged_states.get(path.as_str()).is_none() {
                out.push(path.clone());
            }
            i = i + 1;
        }
        self.untracked_paths = out;
    }
}

} // verus!
