use vstd::prelude::*;

verus! {

/// The cursor after stepping `delta` rows from `cursor` over a list of
/// `len` rows, clamped at both ends (0 on an empty list).
pub open spec fn step_spec(cursor: int, len: int, delta: int, down: bool) -> int {
    if len <= 0 {
        0
    } else if down {
        if cursor + delta < len {
            cursor + delta
        } else {
            len - 1
        }
    } else if cursor >= delta {
        cursor - delta
    } else {
        0
    }
}

/// The cursor after stepping `delta` rows from `cursor` over a list of
/// `len` rows, clamped to the list's ends (see [`step_spec`]).
pub fn step(cursor: usize, len: usize, delta: usize, down: bool) -> (r: usize)
    ensures
        r == step_spec(cursor as int, len as int, delta as int, down),
{
    if len == 0 {
        0
    } else if down {
        if cursor < len - 1 && delta < len - 1 - cursor {
            cursor + delta
        } else {
            len - 1
        }
    } else if cursor >= delta {
        cursor - delta
    } else {
        0
    }
}

/// The rows a half-page motion moves over a viewport of `height` rows:
/// half the height, and at least one row.
pub fn half_page(height: usize) -> (n: usize)
    ensures
        n == if height / 2 == 0 { 1 } else { height / 2 },
{
    if height / 2 == 0 {
        1
    } else {
        height / 2
    }
}

/// The rows a full-page motion moves over a viewport of `height` rows: the
/// whole height, and at least one row.
pub fn full_page(height: usize) -> (n: usize)
    ensures
        n == if height == 0 { 1 } else { height },
{
    if height == 0 {
        1
    } else {
        height
    }
}

/// The cursor a jump to the top lands on.
pub fn jump_top() -> (r: usize)
    ensures
        r == 0,
{
    0
}

/// The cursor a jump to the bottom of a `len`-row list lands on: the last
/// row, or 0 on an empty list.
pub fn jump_bottom(len: usize) -> (r: usize)
    ensures
        r == if len == 0 { 0 } else { len - 1 },
{
    if len == 0 {
        0
    } else {
        len - 1
    }
}

} // verus!
