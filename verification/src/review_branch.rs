//! State for the review-branch modal: the local branches a review can be
//! started on (the checked-out one left out), a cursor, and the git panel's
//! cursor row to restore when the modal closes.
use vstd::prelude::*;

use crate::git::LocalBranch;

verus! {

/// The review-branch modal's state.
#[derive(Debug, Clone)]
pub struct ReviewBranchState {
    /// Local branches, as read when the modal opened, without the one
    /// currently checked out.
    pub branches: Vec<LocalBranch>,
    /// The cursor into `branches`.
    pub cursor: usize,
    /// The git panel's cursor row to restore on close.
    pub panel_cursor: usize,
}

impl ReviewBranchState {
    /// Builds the modal's state over `branches`, cursor at the top.
    pub fn new(branches: Vec<LocalBranch>, panel_cursor: usize) -> (s: ReviewBranchState)
        ensures
            s.branches == branches,
            s.cursor == 0,
            s.panel_cursor == panel_cursor,
    {
        ReviewBranchState { branches, cursor: 0, panel_cursor }
    }

    /// Moves the cursor down one row, clamped at the last (or pinned at 0
    /// on an empty list).
    pub fn move_down(&mut self)
        ensures
            final(self).branches == old(self).branches,
            final(self).panel_cursor == old(self).panel_cursor,
            final(self).cursor == (if old(self).branches@.len() == 0 {
                0
            } else if old(self).cursor + 1 < old(self).branches@.len() {
                old(self).cursor + 1
            } else {
                old(self).branches@.len() - 1
            }),
    {
        let len = self.branches.len();
        self.cursor = if len == 0 {
            0
        } else if self.cursor < len - 1 {
            self.cursor + 1
        } else {
            len - 1
        };
    }

    /// Moves the cursor up one row, clamped at the first.
    pub fn move_up(&mut self)
        ensures
            final(self).branches == old(self).branches,
            final(self).panel_cursor == old(self).panel_cursor,
            final(self).cursor == (if old(self).cursor > 0 {
                old(self).cursor - 1
            } else {
                0
            }),
    {
        if self.cursor > 0 {
            self.cursor = self.cursor - 1;
        }
    }
}

} // verus!
