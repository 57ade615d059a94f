//! Annotation-target derivation: mapping a cursor row or a Visual selection
//! over the row model to the [`Target`] it addresses, the line an editor
//! opens for a row, and the worktree forms of targets in the file view.
use vstd::prelude::*;

use crate::annotate::{Side, Target, TargetV, opt_target_view};
use crate::diff::{DiffLine, FileDiff, LineOrigin};
use crate::rows::{LineRow, LineRowV, Row, RowV, file_fits, hunk_span, hunk_span_spec, rows_view};

verus! {

/// A line's origin and numbers: what targeting reads of a line.
pub type Numbers = (LineOrigin, Option<u32>, Option<u32>);

/// The origin and numbers of a hunk's body lines.
pub open spec fn diff_numbers(lines: Seq<DiffLine>) -> Seq<Numbers> {
    lines.map_values(|l: DiffLine| (l.origin, l.old_line, l.new_line))
}

/// The old-side number of the first context line in `ls` whose new-side
/// number is `end`, if that line carries one.
pub open spec fn first_context_old(ls: Seq<Numbers>, end: u32) -> Option<u32>
    decreases ls.len(),
{
    if ls.len() == 0 {
        None
    } else if ls[0].0 == LineOrigin::Context && ls[0].2 == Some(end) {
        ls[0].1
    } else {
        first_context_old(ls.drop_first(), end)
    }
}

/// The hunk target of `file`'s `hunk_index`-th hunk: its span, with the
/// end line's old-side number when that line is context.
pub open spec fn hunk_target_spec(file: FileDiff, hunk_index: int) -> Option<TargetV> {
    if 0 <= hunk_index < file.hunks@.len() {
        let h = file.hunks@[hunk_index];
        let (start, end) = hunk_span_spec(h);
        if start <= end {
            Some(
                TargetV::Hunk {
                    path: file.path@,
                    start,
                    end,
                    other_end: first_context_old(diff_numbers(h.lines@), end),
                },
            )
        } else {
            None
        }
    } else {
        None
    }
}

/// The line target of a diff line: removed lines anchor to the old side,
/// added and context lines to the new side (context lines carrying their
/// old-side number).
pub open spec fn line_target_spec(path: Seq<char>, l: LineRowV) -> Option<TargetV> {
    match l.origin {
        LineOrigin::Removed => match l.old_line {
            Some(n) => Some(TargetV::Line { path, line: n, side: Side::Old, other: None }),
            None => None,
        },
        LineOrigin::Added => match l.new_line {
            Some(n) => Some(TargetV::Line { path, line: n, side: Side::New, other: None }),
            None => None,
        },
        LineOrigin::Context => match l.new_line {
            Some(n) => Some(TargetV::Line { path, line: n, side: Side::New, other: l.old_line }),
            None => None,
        },
    }
}

/// The target of the row at `cursor`: a line, hunk or whole-file target,
/// or none on annotation rows and past the end.
pub open spec fn cursor_target_spec(file: FileDiff, rows: Seq<RowV>, cursor: int) -> Option<
    TargetV,
> {
    if 0 <= cursor < rows.len() {
        match rows[cursor] {
            RowV::Line(l) => line_target_spec(file.path@, l),
            RowV::HunkHeader { hunk_index, .. } => hunk_target_spec(file, hunk_index),
            RowV::FileHeader { .. } => Some(TargetV::File { path: file.path@ }),
            RowV::Binary => Some(TargetV::File { path: file.path@ }),
            RowV::Annotation { .. } => None,
        }
    } else {
        None
    }
}

/// The origin and numbers of the line rows among `rows[lo..=hi]`, in order.
pub open spec fn span_lines(rows: Seq<RowV>, lo: int, hi: int) -> Seq<Numbers>
    decreases hi - lo + 1,
{
    if hi < lo {
        seq![]
    } else {
        let rest = span_lines(rows, lo, hi - 1);
        match rows[hi] {
            RowV::Line(l) => rest.push((l.origin, l.old_line, l.new_line)),
            _ => rest,
        }
    }
}

/// The old-side numbers present among `ls`, in order.
pub open spec fn old_numbers(ls: Seq<Numbers>) -> Seq<u32>
    decreases ls.len(),
{
    if ls.len() == 0 {
        seq![]
    } else {
        let rest = old_numbers(ls.drop_last());
        match ls.last().1 {
            Some(n) => rest.push(n),
            None => rest,
        }
    }
}

/// The new-side numbers present among the lines of `ls` that are not
/// removed, in order.
pub open spec fn new_numbers(ls: Seq<Numbers>) -> Seq<u32>
    decreases ls.len(),
{
    if ls.len() == 0 {
        seq![]
    } else {
        let rest = new_numbers(ls.drop_last());
        if ls.last().0 != LineOrigin::Removed && ls.last().2 is Some {
            rest.push(ls.last().2->0)
        } else {
            rest
        }
    }
}

/// The least of a non-empty `s`.
pub open spec fn seq_min(s: Seq<u32>) -> u32
    decreases s.len(),
{
    if s.len() <= 1 {
        s[0]
    } else {
        let m = seq_min(s.drop_last());
        if s.last() < m {
            s.last()
        } else {
            m
        }
    }
}

/// The greatest of a non-empty `s`.
pub open spec fn seq_max(s: Seq<u32>) -> u32
    decreases s.len(),
{
    if s.len() <= 1 {
        s[0]
    } else {
        let m = seq_max(s.drop_last());
        if s.last() > m {
            s.last()
        } else {
            m
        }
    }
}

/// Whether every line of `ls` is removed.
pub open spec fn all_removed(ls: Seq<Numbers>) -> bool {
    forall|i: int| 0 <= i < ls.len() ==> (#[trigger] ls[i]).0 == LineOrigin::Removed
}

/// The target of a Visual selection between `anchor` and `cursor`
/// (inclusive, either order): over the old side when every selected line is
/// removed, else over the new-side numbers of the selected lines that are
/// not removed; the end line's old-side number rides along when that line
/// is context. None when an end is past the rows, no line row is selected,
/// or no selected line carries the side's number.
pub open spec fn visual_target_spec(file: FileDiff, rows: Seq<RowV>, cursor: int, anchor: int) -> Option<
    TargetV,
> {
    let lo = if anchor <= cursor { anchor } else { cursor };
    let hi = if anchor <= cursor { cursor } else { anchor };
    if hi >= rows.len() {
        None
    } else {
        let ls = span_lines(rows, lo, hi);
        if ls.len() == 0 {
            None
        } else if all_removed(ls) {
            let nums = old_numbers(ls);
            if nums.len() == 0 {
                None
            } else {
                Some(
                    TargetV::Range {
                        path: file.path@,
                        start: seq_min(nums),
                        end: seq_max(nums),
                        side: Side::Old,
                        other_end: None,
                    },
                )
            }
        } else {
            let nums = new_numbers(ls);
            if nums.len() == 0 {
                None
            } else {
                Some(
                    TargetV::Range {
                        path: file.path@,
                        start: seq_min(nums),
                        end: seq_max(nums),
                        side: Side::New,
                        other_end: first_context_old(ls, seq_max(nums)),
                    },
                )
            }
        }
    }
}

/// The `(path, line)` an editor opens for the row at `cursor`: a line's
/// new-side number (line 1 for a removed line, which has none on disk), line
/// 1 on headers, none on binary and annotation rows or past the end.
pub open spec fn editor_target_spec(file: FileDiff, rows: Seq<RowV>, cursor: int) -> Option<
    (Seq<char>, u32),
> {
    if 0 <= cursor < rows.len() {
        match rows[cursor] {
            RowV::Line(l) => Some(
                (
                    file.path@,
                    match l.origin {
                        LineOrigin::Removed => 1u32,
                        _ => match l.new_line {
                            Some(n) => n,
                            None => 1u32,
                        },
                    },
                ),
            ),
            RowV::FileHeader { .. } => Some((file.path@, 1u32)),
            RowV::HunkHeader { .. } => Some((file.path@, 1u32)),
            _ => None,
        }
    } else {
        None
    }
}

/// The worktree form of a target made in the file view: lines become
/// worktree lines, ranges and hunks worktree ranges over the same span;
/// file and worktree targets are unchanged.
pub open spec fn worktree_spec(t: TargetV) -> TargetV {
    match t {
        TargetV::Line { path, line, .. } => TargetV::WorktreeLine { path, line },
        TargetV::Range { path, start, end, side, .. } => if start <= end {
            TargetV::WorktreeRange { path, start, end }
        } else {
            TargetV::Range { path, start, end, side: Side::New, other_end: None }
        },
        TargetV::Hunk { path, start, end, .. } => if start <= end {
            TargetV::WorktreeRange { path, start, end }
        } else {
            TargetV::Hunk { path, start, end, other_end: None }
        },
        other => other,
    }
}

/// The old-side number of the first context line of `ls[i..]` whose
/// new-side number is `end`.
fn first_context_old_from(ls: &Vec<Numbers>, end: u32) -> (r: Option<u32>)
    ensures
        r == first_context_old(ls@, end),
{
    let mut i: usize = 0;
    assert(ls@.subrange(0, ls@.len() as int) =~= ls@);
    while i < ls.len()
        invariant
            i <= ls@.len(),
            first_context_old(ls@.subrange(i as int, ls@.len() as int), end) == first_context_old(
                ls@,
                end,
            ),
        decreases ls.len() - i,
    {
        let (o, old, new) = ls[i];
        let ghost rest = ls@.subrange(i as int, ls@.len() as int);
        assert(rest[0] == ls@[i as int]);
        if matches!(o, LineOrigin::Context) && new == Some(end) {
            return old;
        }
        assert(rest.drop_first() =~= ls@.subrange(i + 1, ls@.len() as int));
        i = i + 1;
    }
    None
}

/// The origin and numbers of a hunk's body lines.
fn hunk_numbers(lines: &Vec<DiffLine>) -> (out: Vec<Numbers>)
    ensures
        out@ == diff_numbers(lines@),
{
    let mut out: Vec<Numbers> = Vec::new();
    let mut i: usize = 0;
    while i < lines.len()
        invariant
            i <= lines@.len(),
            out@ == diff_numbers(lines@).take(i as int),
        decreases lines.len() - i,
    {
        let l = &lines[i];
        out.push((l.origin, l.old_line, l.new_line));
        i = i + 1;
        assert(out@ =~= diff_numbers(lines@).take(i as int));
    }
    assert(diff_numbers(lines@).take(lines@.len() as int) =~= diff_numbers(lines@));
    out
}

/// The hunk target of `file`'s `hunk_index`-th hunk (see
/// [`hunk_target_spec`]).
fn hunk_target(file: &FileDiff, hunk_index: usize) -> (t: Option<Target>)
    requires
        file_fits(*file),
    ensures
        opt_target_view(t) == hunk_target_spec(*file, hunk_index as int),
{
    if hunk_index >= file.hunks.len() {
        return None;
    }
    let hunk = &file.hunks[hunk_index];
    let (start, end) = hunk_span(hunk);
    let nums = hunk_numbers(&hunk.lines);
    let other_end = first_context_old_from(&nums, end);
    match Target::hunk_with_other_end(file.path.as_str(), start, end, other_end) {
        Ok(t) => Some(t),
        Err(_) => None,
    }
}

/// The line target of a diff line row (see [`line_target_spec`]).
fn line_target(path: &str, line: &LineRow) -> (t: Option<Target>)
    ensures
        opt_target_view(t) == line_target_spec(path@, line@),
{
    match line.origin {
        LineOrigin::Removed => match line.old_line {
            Some(n) => Some(Target::line(path, n, Side::Old)),
            None => None,
        },
        LineOrigin::Added => match line.new_line {
            Some(n) => Some(Target::line(path, n, Side::New)),
            None => None,
        },
        LineOrigin::Context => match line.new_line {
            Some(n) => Some(Target::line_with_other(path, n, Side::New, line.old_line)),
            None => None,
        },
    }
}

/// The annotation target for the cursor's row in Normal mode (see
/// [`cursor_target_spec`]).
pub fn target_for_cursor(file: &FileDiff, rows: &[Row], cursor: usize) -> (t: Option<Target>)
    requires
        file_fits(*file),
    ensures
        opt_target_view(t) == cursor_target_spec(*file, rows_view(rows@), cursor as int),
{
    if cursor >= rows.len() {
        return None;
    }
    match &rows[cursor] {
        Row::Line(line) => line_target(file.path.as_str(), line),
        Row::HunkHeader { hunk_index, .. } => hunk_target(file, *hunk_index),
        Row::FileHeader { .. } => Some(Target::file(file.path.as_str())),
        Row::Binary => Some(Target::file(file.path.as_str())),
        Row::Annotation { .. } => None,
    }
}

/// The origin and numbers of the line rows among `rows[lo..=hi]`.
fn collect_span_lines(rows: &[Row], lo: usize, hi: usize) -> (out: Vec<Numbers>)
    requires
        lo <= hi < rows@.len(),
    ensures
        out@ == span_lines(rows_view(rows@), lo as int, hi as int),
{
    let ghost rv = rows_view(rows@);
    let mut out: Vec<Numbers> = Vec::new();
    let mut i: usize = lo;
    assert(span_lines(rv, lo as int, lo - 1) == Seq::<Numbers>::empty());
    while i <= hi
        invariant
            lo <= i <= hi + 1,
            hi < rows@.len(),
            rv == rows_view(rows@),
            out@ == span_lines(rv, lo as int, i - 1),
        decreases hi + 1 - i,
    {
        assert(rv[i as int] == rows@[i as int]@);
        match &rows[i] {
            Row::Line(l) => {
                out.push((l.origin, l.old_line, l.new_line));
            },
            _ => {},
        }
        i = i + 1;
    }
    out
}

/// The least and greatest of a non-empty `nums`.
fn min_max(nums: &Vec<u32>) -> (r: (u32, u32))
    requires
        nums@.len() > 0,
    ensures
        r.0 == seq_min(nums@),
        r.1 == seq_max(nums@),
{
    let mut lo = nums[0];
    let mut hi = nums[0];
    let mut i: usize = 1;
    while i < nums.len()
        invariant
            1 <= i <= nums@.len(),
            lo == seq_min(nums@.take(i as int)),
            hi == seq_max(nums@.take(i as int)),
        decreases nums.len() - i,
    {
        assert(nums@.take(i + 1).drop_last() =~= nums@.take(i as int));
        if nums[i] < lo {
            lo = nums[i];
        }
        if nums[i] > hi {
            hi = nums[i];
        }
        i = i + 1;
    }
    assert(nums@.take(nums@.len() as int) =~= nums@);
    (lo, hi)
}

/// The annotation target for a Visual selection between `anchor` and
/// `cursor` (see [`visual_target_spec`]).
pub fn target_for_visual(file: &FileDiff, rows: &[Row], cursor: usize, anchor: usize) -> (t: Option<
    Target,
>)
    ensures
        opt_target_view(t) == visual_target_spec(
            *file,
            rows_view(rows@),
            cursor as int,
            anchor as int,
        ),
{
    let (lo, hi) = if anchor <= cursor {
        (anchor, cursor)
    } else {
        (cursor, anchor)
    };
    if hi >= rows.len() {
        return None;
    }
    let ls = collect_span_lines(rows, lo, hi);
    if ls.len() == 0 {
        return None;
    }
    let mut removed_only = true;
    let mut olds: Vec<u32> = Vec::new();
    let mut news: Vec<u32> = Vec::new();
    let mut i: usize = 0;
    while i < ls.len()
        invariant
            i <= ls@.len(),
            removed_only == all_removed(ls@.take(i as int)),
            olds@ == old_numbers(ls@.take(i as int)),
            news@ == new_numbers(ls@.take(i as int)),
        decreases ls.len() - i,
    {
        assert(ls@.take(i + 1).drop_last() =~= ls@.take(i as int));
        let (o, old, new) = ls[i];
        if !matches!(o, LineOrigin::Removed) {
            removed_only = false;
            assert(ls@.take(i + 1)[i as int] == ls@[i as int]);
        }
        if let Some(n) = old {
            olds.push(n);
        }
        if !matches!(o, LineOrigin::Removed) {
            if let Some(n) = new {
                news.push(n);
            }
        }
        i = i + 1;
    }
    assert(ls@.take(ls@.len() as int) =~= ls@);
    if removed_only {
        if olds.len() == 0 {
            return None;
        }
        let (start, end) = min_max(&olds);
        match Target::range(file.path.as_str(), start, end, Side::Old) {
            Ok(t) => Some(t),
            Err(_) => None,
        }
    } else {
        if news.len() == 0 {
            return None;
        }
        let (start, end) = min_max(&news);
        let other_end = first_context_old_from(&ls, end);
        match Target::range_with_other_end(file.path.as_str(), start, end, Side::New, other_end) {
            Ok(t) => Some(t),
            Err(_) => None,
        }
    }
}

/// The `(path, line)` an editor opens for the cursor's row (see
/// [`editor_target_spec`]).
pub fn editor_target_for_cursor(file: &FileDiff, rows: &[Row], cursor: usize) -> (r: Option<
    (String, u32),
>)
    ensures
        match r {
            Some((p, n)) => editor_target_spec(*file, rows_view(rows@), cursor as int) == Some(
                (p@, n),
            ),
            None => editor_target_spec(*file, rows_view(rows@), cursor as int) is None,
        },
{
    if cursor >= rows.len() {
        return None;
    }
    match &rows[cursor] {
        Row::Line(line) => {
            let n = match line.origin {
                LineOrigin::Removed => 1,
                _ => match line.new_line {
                    Some(n) => n,
                    None => 1,
                },
            };
            Some((file.path.clone(), n))
        },
        Row::FileHeader { .. } => Some((file.path.clone(), 1)),
        Row::HunkHeader { .. } => Some((file.path.clone(), 1)),
        _ => None,
    }
}

/// Converts a target made against the file view into its worktree form
/// (see [`worktree_spec`]).
pub fn as_worktree_target(target: Target) -> (t: Target)
    ensures
        t@ == worktree_spec(target@),
{
    match target {
        Target::Line { path, line, .. } => Target::worktree_line(path.as_str(), line),
        Target::Range { path, start, end, side, other_end } => {
            match Target::worktree_range(path.as_str(), start, end) {
                Ok(t) => t,
                Err(_) => Target::Range { path, start, end, side: Side::New, other_end: None },
            }
        },
        Target::Hunk { path, start, end, other_end } => {
            match Target::worktree_range(path.as_str(), start, end) {
                Ok(t) => t,
                Err(_) => Target::Hunk { path, start, end, other_end: None },
            }
        },
        other => other,
    }
}

} // verus!
