//! The accept/defer gestures of a review session, applied to the file under
//! the cursor: its review status moves, its section collapses when it
//! reaches the gesture's resting status (and expands otherwise), and the
//! cursor lands on its header.
use vstd::prelude::*;

use crate::app::App;
use crate::diff_view::DiffViewState;
use crate::review::{ReviewGesture, ReviewStatus, apply_gesture, gesture_spec};

verus! {

/// The review status a map of states gives `path`: its entry, or
/// unreviewed.
pub open spec fn status_in(states: Map<Seq<char>, ReviewStatus>, path: Seq<char>) -> ReviewStatus {
    if states.dom().contains(path) {
        states[path]
    } else {
        ReviewStatus::Unreviewed
    }
}

/// `states` with `path` set to `status`, an unreviewed file dropping out.
pub open spec fn with_status(
    states: Map<Seq<char>, ReviewStatus>,
    path: Seq<char>,
    status: ReviewStatus,
) -> Map<Seq<char>, ReviewStatus> {
    if status == ReviewStatus::Unreviewed {
        states.remove(path)
    } else {
        states.insert(path, status)
    }
}

/// How many of the first `n` files are accepted.
pub open spec fn accepted_count(view: DiffViewState, states: Map<Seq<char>, ReviewStatus>, n: int) -> nat
    decreases n,
{
    if n <= 0 {
        0
    } else {
        accepted_count(view, states, n - 1) + if status_in(states, view.files@[n - 1].path@)
            == ReviewStatus::Accepted {
            1nat
        } else {
            0nat
        }
    }
}

/// The path of the file under the cursor.
pub open spec fn cursor_path(view: DiffViewState) -> Option<Seq<char>> {
    let f = if view.cursor < view.file_of_row@.len() {
        view.file_of_row@[view.cursor as int] as int
    } else {
        0
    };
    if 0 <= f < view.files@.len() {
        Some(view.files@[f].path@)
    } else {
        None
    }
}

/// The status a gesture is resting at: a file reaching it collapses.
pub open spec fn resting(g: ReviewGesture) -> ReviewStatus {
    match g {
        ReviewGesture::ToggleAccept => ReviewStatus::Accepted,
        ReviewGesture::Accept => ReviewStatus::Accepted,
        ReviewGesture::ToggleDefer => ReviewStatus::Deferred,
    }
}

/// How gesture `g` on the file under the cursor left `new` from `old`: the
/// file moves to the status the gesture gives (see [`gesture_spec`]), its
/// section collapses when that is the gesture's resting status (expanding
/// otherwise), the rows are laid out again and the cursor lands on the
/// file's header; nothing happens on an empty diff.
pub open spec fn review_transitioned(old: App, new: App, g: ReviewGesture) -> bool {
    &&& cursor_path(old.view) is None ==> new == old
    &&& cursor_path(old.view) matches Some(path) ==> {
        let next = gesture_spec(g, status_in(old.review_states@, path));
        let i = old.view.index_of_path(path)->0;
        &&& old.view.index_of_path(path) is Some
        &&& new.review_states@ == with_status(old.review_states@, path, next)
        &&& new.view.files == old.view.files
        &&& new.view.collapsed@ == old.view.collapsed@.update(i, next == resting(g))
        &&& new.view.shows(old.annotations.items())
        &&& new.view.cursor == new.view.header_row_of_file@[i]
        &&& new == (App { view: new.view, review_states: new.review_states, ..old })
    }
}

impl App {
    /// The review status of `path`: its recorded status, or unreviewed.
    pub fn review_status(&self, path: &str) -> (s: ReviewStatus)
        requires
            self.review_states.wf(),
        ensures
            s == status_in(self.review_states@, path@),
    {
        match self.review_states.get(path) {
            Some(s) => s,
            None => ReviewStatus::Unreviewed,
        }
    }

    /// Records `status` for `path`, an unreviewed file dropping out of the
    /// map.
    pub fn set_review_status(&mut self, path: &str, status: ReviewStatus)
        requires
            old(self).review_states.wf(),
        ensures
            final(self).review_states.wf(),
            final(self).review_states@ == with_status(old(self).review_states@, path@, status),
            *final(self) == (App { review_states: final(self).review_states, ..*old(self) }),
    {
        if status == ReviewStatus::Unreviewed {
            self.review_states.remove(path);
        } else {
            let p = crate::annotate::copy_str(path);
            self.review_states.insert(p, status);
        }
    }

    /// The path of the file under the cursor, if any.
    pub fn cursor_file_path(&self) -> (p: Option<String>)
        ensures
            match p {
                Some(s) => cursor_path(self.view) == Some(s@),
                None => cursor_path(self.view) is None,
            },
    {
        let f = self.view.file_of_cursor();
        if f < self.view.files.len() {
            Some(self.view.files[f].path.clone())
        } else {
            None
        }
    }

    /// Lays the diff pane out again.
    pub fn rebuild_rows(&mut self)
        requires
            old(self).wf(),
        ensures
            final(self).wf(),
            final(self).view.shows(old(self).annotations.items()),
            final(self).view.files == old(self).view.files,
            final(self).view.collapsed == old(self).view.collapsed,
            final(self).view.cursor == old(self).view.cursor,
            *final(self) == (App { view: final(self).view, ..*old(self) }),
    {
        self.view.rebuild(&self.annotations);
    }

    /// Applies gesture `g` to the file under the cursor: records the status
    /// it moves to, collapses the file's section when that is the gesture's
    /// resting status (expanding it otherwise), lays the rows out again and
    /// puts the cursor on the file's header. A no-op on an empty diff.
    #[verifier::rlimit(30)]
    fn apply_review_transition(&mut self, g: ReviewGesture)
        requires
            old(self).wf(),
        ensures
            final(self).wf(),
            review_transitioned(*old(self), *final(self), g),
    {
        let path = match self.cursor_file_path() {
            Some(p) => p,
            None => return ,
        };
        let current = self.review_status(path.as_str());
        let next = apply_gesture(g, current);
        self.set_review_status(path.as_str(), next);
        let collapse_when = match g {
            ReviewGesture::ToggleAccept => ReviewStatus::Accepted,
            ReviewGesture::Accept => ReviewStatus::Accepted,
            ReviewGesture::ToggleDefer => ReviewStatus::Deferred,
        };
        proof {
            let f = if old(self).view.cursor < old(self).view.file_of_row@.len() {
                old(self).view.file_of_row@[old(self).view.cursor as int] as int
            } else {
                0
            };
            assert(old(self).view.files@[f].path@ == path@);
        }
        self.view.set_collapsed(path.as_str(), next == collapse_when);
        self.rebuild_rows();
        if let Some(index) = self.view.find_path(path.as_str()) {
            let c = self.view.header_row_of_file[index];
            self.view.set_cursor(c);
        }
    }

    /// `Space` in a review session: accepts the file under the cursor, or
    /// un-accepts an accepted one (collapsing on accept, expanding on
    /// un-accept). A no-op outside a review session.
    pub fn toggle_accept_file(&mut self)
        requires
            old(self).wf(),
        ensures
            final(self).wf(),
            !(old(self).target is Review) ==> *final(self) == *old(self),
            old(self).target is Review ==> review_transitioned(*old(self), *final(self), ReviewGesture::ToggleAccept),
    {
        if !self.in_review_session() {
            return ;
        }
        self.apply_review_transition(ReviewGesture::ToggleAccept);
    }

    /// `S` in a review session: accepts the file under the cursor whatever
    /// its status, collapsing it. A no-op outside a review session.
    pub fn accept_file(&mut self)
        requires
            old(self).wf(),
        ensures
            final(self).wf(),
            !(old(self).target is Review) ==> *final(self) == *old(self),
            old(self).target is Review ==> review_transitioned(*old(self), *final(self), ReviewGesture::Accept),
    {
        if !self.in_review_session() {
            return ;
        }
        self.apply_review_transition(ReviewGesture::Accept);
    }

    /// `d` in a review session: defers the file under the cursor, or
    /// un-defers a deferred one (collapsing on defer, expanding on
    /// un-defer). A no-op outside a review session.
    pub fn toggle_defer_file(&mut self)
        requires
            old(self).wf(),
        ensures
            final(self).wf(),
            !(old(self).target is Review) ==> *final(self) == *old(self),
            old(self).target is Review ==> review_transitioned(*old(self), *final(self), ReviewGesture::ToggleDefer),
    {
        if !self.in_review_session() {
            return ;
        }
        self.apply_review_transition(ReviewGesture::ToggleDefer);
    }

    /// The review banner's progress: how many files are accepted, of how
    /// many.
    pub fn review_progress(&self) -> (r: (usize, usize))
        requires
            self.review_states.wf(),
        ensures
            r.0 == accepted_count(self.view, self.review_states@, self.view.files@.len() as int),
            r.1 == self.view.files@.len(),
    {
        let n = self.view.files.len();
        let mut accepted: usize = 0;
        let mut i: usize = 0;
        while i < n
            invariant
                n == self.view.files@.len(),
                self.review_states.wf(),
                i <= n,
                accepted == accepted_count(self.view, self.review_states@, i as int),
                accepted <= i,
            decreases n - i,
        {
            if self.review_status(self.view.files[i].path.as_str()) == ReviewStatus::Accepted {
                accepted = accepted + 1;
            }
            i = i + 1;
        }
        (accepted, n)
    }

    /// Puts the cursor on the header of the first file at `path`; a no-op
    /// when there is none.
    pub fn select_file_by_path(&mut self, path: &str)
        requires
            old(self).wf(),
        ensures
            final(self).wf(),
            match old(self).view.index_of_path(path@) {
                Some(i) => *final(self) == (App {
                    view: DiffViewState {
                        cursor: old(self).view.header_row_of_file@[i],
                        ..old(self).view
                    },
                    ..*old(self)
                }),
                None => *final(self) == *old(self),
            },
    {
        if let Some(index) = self.view.find_path(path) {
            let c = self.view.header_row_of_file[index];
            self.view.set_cursor(c);
        }
    }
}

} // verus!
