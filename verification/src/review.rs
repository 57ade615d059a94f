//! A file's review status in a branch review session, and the gestures
//! that move it: accepting, toggling acceptance, and deferring.
use vstd::prelude::*;

verus! {

/// Where a file stands in a review session.
#[derive(Debug, Clone, Copy, PartialEq, Eq, Structural)]
pub enum ReviewStatus {
    /// Not looked at yet (the default).
    Unreviewed,
    /// Accepted as reviewed.
    Accepted,
    /// Put off for later.
    Deferred,
    /// Accepted earlier, but its content changed since.
    ChangedSinceAccepted,
}

impl Default for ReviewStatus {
    fn default() -> (s: ReviewStatus)
        ensures
            s == ReviewStatus::Unreviewed,
    {
        ReviewStatus::Unreviewed
    }
}

/// A review gesture on one file.
#[derive(Debug, Clone, Copy, PartialEq, Eq, Structural)]
pub enum ReviewGesture {
    /// `Space`: accept, or un-accept an accepted file.
    ToggleAccept,
    /// `S`: accept whatever the status.
    Accept,
    /// `d`: defer, or un-defer a deferred file.
    ToggleDefer,
}

/// The status a gesture leaves a file in.
pub open spec fn gesture_spec(g: ReviewGesture, s: ReviewStatus) -> ReviewStatus {
    match g {
        ReviewGesture::ToggleAccept => if s == ReviewStatus::Accepted {
            ReviewStatus::Unreviewed
        } else {
            ReviewStatus::Accepted
        },
        ReviewGesture::Accept => ReviewStatus::Accepted,
        ReviewGesture::ToggleDefer => if s == ReviewStatus::Deferred {
            ReviewStatus::Unreviewed
        } else {
            ReviewStatus::Deferred
        },
    }
}

/// Accepts a file, or un-accepts an accepted one.
pub fn toggle_accept(s: ReviewStatus) -> (r: ReviewStatus)
    ensures
        r == gesture_spec(ReviewGesture::ToggleAccept, s),
{
    if s == ReviewStatus::Accepted {
        ReviewStatus::Unreviewed
    } else {
        ReviewStatus::Accepted
    }
}

/// Accepts a file whatever its status.
pub fn accept(s: ReviewStatus) -> (r: ReviewStatus)
    ensures
        r == gesture_spec(ReviewGesture::Accept, s),
{
    ReviewStatus::Accepted
}

/// Defers a file, or un-defers a deferred one.
pub fn toggle_defer(s: ReviewStatus) -> (r: ReviewStatus)
    ensures
        r == gesture_spec(ReviewGesture::ToggleDefer, s),
{
    if s == ReviewStatus::Deferred {
        ReviewStatus::Unreviewed
    } else {
        ReviewStatus::Deferred
    }
}

/// The status `g` leaves a file of status `s` in.
pub fn apply_gesture(g: ReviewGesture, s: ReviewStatus) -> (r: ReviewStatus)
    ensures
        r == gesture_spec(g, s),
{
    match g {
        ReviewGesture::ToggleAccept => toggle_accept(s),
        ReviewGesture::Accept => accept(s),
        ReviewGesture::ToggleDefer => toggle_defer(s),
    }
}

/// The gestures' laws: from an unreviewed file, toggling acceptance (or
/// deferral) twice leaves it unreviewed again; toggling acceptance always
/// ends accepted or unreviewed, toggling deferral deferred or unreviewed (so
/// the two replace each other rather than combine); accepting twice is
/// accepting once.
pub proof fn lemma_gestures(s: ReviewStatus)
    ensures
        s == ReviewStatus::Unreviewed ==> gesture_spec(
            ReviewGesture::ToggleAccept,
            gesture_spec(ReviewGesture::ToggleAccept, s),
        ) == s,
        s == ReviewStatus::Unreviewed ==> gesture_spec(
            ReviewGesture::ToggleDefer,
            gesture_spec(ReviewGesture::ToggleDefer, s),
        ) == s,
        gesture_spec(ReviewGesture::ToggleAccept, s) == ReviewStatus::Accepted || gesture_spec(
            ReviewGesture::ToggleAccept,
            s,
        ) == ReviewStatus::Unreviewed,
        gesture_spec(ReviewGesture::ToggleDefer, s) == ReviewStatus::Deferred || gesture_spec(
            ReviewGesture::ToggleDefer,
            s,
        ) == ReviewStatus::Unreviewed,
        gesture_spec(ReviewGesture::Accept, gesture_spec(ReviewGesture::Accept, s))
            == gesture_spec(ReviewGesture::Accept, s),
{
}

} // verus!
