//! Soft word-wrap layout for the Compose and commit-message modals.
//!
//! Given a buffer's logical lines and a wrap width (in char cells),
//! [`layout`] produces the ordered list of visual rows the modal renders, and
//! [`WrapLayout::cursor_position`] maps a `(logical_row, logical_col)` cursor
//! onto its `(visual_row, visual_col)`. Wrapping is word-first with a glyph
//! fallback: a row breaks after the last whitespace that fits; a word wider
//! than the width is hard-split at the width. The visual rows partition each
//! logical line: every char index belongs to exactly one row and rows are
//! contiguous.
use vstd::prelude::*;

use crate::text::{chars_of, is_whitespace, is_ws};

verus! {

/// One rendered row: a `[start_col, end_col)` char range within its
/// `logical_line`.
#[derive(Debug, Clone, Copy, PartialEq, Eq)]
pub struct VisualRow {
    /// Index of the logical (buffer) line this visual row came from.
    pub logical_line: usize,
    /// First char index (inclusive) of this row within the logical line.
    pub start_col: usize,
    /// One-past-the-last char index (exclusive) of this row.
    pub end_col: usize,
}

/// The full set of visual rows for a buffer at a given wrap width, in render
/// order. Always has at least one row.
#[derive(Debug, Clone, PartialEq, Eq)]
pub struct WrapLayout {
    /// The visual rows, top to bottom.
    pub rows: Vec<VisualRow>,
}

/// A visual row as plain integers `(logical_line, start_col, end_col)`.
pub open spec fn row_view(r: VisualRow) -> (int, int, int) {
    (r.logical_line as int, r.start_col as int, r.end_col as int)
}

/// The rows of a layout as plain integer triples.
pub open spec fn rows_view(rows: Seq<VisualRow>) -> Seq<(int, int, int)> {
    rows.map_values(|r: VisualRow| row_view(r))
}

/// The effective wrap width: a width of 0 is treated as 1.
pub open spec fn eff_width(width: int) -> int {
    if width < 1 { 1 } else { width }
}

/// Scanning down from `i` (exclusive) towards `start`, the position just
/// after the last whitespace char at or after `start`; `hard_end` if there
/// is none.
pub open spec fn break_at(cs: Seq<char>, start: int, i: int, hard_end: int) -> int
    decreases i - start,
{
    if i <= start {
        hard_end
    } else if is_ws(cs[i - 1]) {
        i
    } else {
        break_at(cs, start, i - 1, hard_end)
    }
}

/// Where the row starting at `start` ends: the end of the line if the rest
/// fits in `w`, else just after the last whitespace within the `w`-char
/// window, else the window's end (a hard split).
pub open spec fn next_end(cs: Seq<char>, start: int, w: int) -> int {
    if cs.len() - start <= w {
        cs.len() as int
    } else {
        break_at(cs, start, start + w, start + w)
    }
}

/// The `[start, end)` rows covering `cs` from `start` on, at width `w`.
pub open spec fn rows_from(cs: Seq<char>, w: int, start: int) -> Seq<(int, int)>
    decreases cs.len() - start,
{
    if start >= cs.len() || w < 1 {
        seq![]
    } else {
        let e = next_end(cs, start, w);
        if e <= start || e > cs.len() {
            seq![]
        } else {
            seq![(start, e)] + rows_from(cs, w, e)
        }
    }
}

/// The rows one logical line wraps to at `width`: one empty row for an
/// empty line.
pub open spec fn wrap_spec(cs: Seq<char>, width: int) -> Seq<(int, int)> {
    if cs.len() == 0 {
        seq![(0, 0)]
    } else {
        rows_from(cs, eff_width(width), 0)
    }
}

/// The visual rows of `lines[..n]` at `width`, in order.
pub open spec fn layout_rows(lines: Seq<Seq<char>>, width: int, n: int) -> Seq<(int, int, int)>
    decreases n,
{
    if n <= 0 {
        seq![]
    } else {
        layout_rows(lines, width, n - 1) + wrap_spec(lines[n - 1], width).map_values(
            |p: (int, int)| (n - 1, p.0, p.1),
        )
    }
}

/// The whole layout of `lines` at `width`: at least one (empty) row.
pub open spec fn layout_spec(lines: Seq<Seq<char>>, width: int) -> Seq<(int, int, int)> {
    let rows = layout_rows(lines, width, lines.len() as int);
    if rows.len() == 0 {
        seq![(0, 0, 0)]
    } else {
        rows
    }
}

/// The views of a list of strings.
pub open spec fn lines_view(lines: Seq<String>) -> Seq<Seq<char>> {
    lines.map_values(|s: String| s@)
}

proof fn lemma_break_at_bounds(cs: Seq<char>, start: int, i: int, hard_end: int)
    requires
        start <= i <= hard_end,
        hard_end > start,
    ensures
        start < break_at(cs, start, i, hard_end) <= hard_end,
        break_at(cs, start, i, hard_end) <= i || break_at(cs, start, i, hard_end) == hard_end,
    decreases i - start,
{
    if i > start && !is_ws(cs[i - 1]) {
        lemma_break_at_bounds(cs, start, i - 1, hard_end);
    }
}

proof fn lemma_next_end_progress(cs: Seq<char>, start: int, w: int)
    requires
        0 <= start < cs.len(),
        w >= 1,
    ensures
        start < next_end(cs, start, w) <= cs.len(),
        next_end(cs, start, w) - start <= w,
{
    if cs.len() - start > w {
        lemma_break_at_bounds(cs, start, start + w, start + w);
    }
}

/// The end of the row starting at `start` when the rest of the line does
/// not fit: just after the last whitespace in `[start, hard_end)`, or
/// `hard_end`.
fn last_break(chars: &[char], start: usize, hard_end: usize) -> (e: usize)
    requires
        start < hard_end <= chars.len(),
    ensures
        e == break_at(chars@, start as int, hard_end as int, hard_end as int),
{
    let mut i = hard_end;
    while i > start
        invariant
            start <= i <= hard_end <= chars.len(),
            break_at(chars@, start as int, i as int, hard_end as int) == break_at(
                chars@,
                start as int,
                hard_end as int,
                hard_end as int,
            ),
        decreases i,
    {
        if is_whitespace(chars[i - 1]) {
            return i;
        }
        i = i - 1;
    }
    hard_end
}

/// Splits one logical line (as chars) into contiguous `[start, end)` char
/// ranges no wider than `width`, breaking after the last whitespace that
/// fits and hard-splitting words wider than `width`. An empty line yields
/// one empty range.
fn wrap_line(chars: &[char], width: usize) -> (rows: Vec<(usize, usize)>)
    ensures
        rows@.map_values(|p: (usize, usize)| (p.0 as int, p.1 as int)) == wrap_spec(
            chars@,
            width as int,
        ),
{
    let width = if width < 1 {
        1
    } else {
        width
    };
    let ghost cs = chars@;
    let ghost w = width as int;
    if chars.len() == 0 {
        let rows = vec![(0, 0)];
        assert(rows@.map_values(|p: (usize, usize)| (p.0 as int, p.1 as int)) =~= seq![(0int, 0int)]);
        return rows;
    }
    let mut rows: Vec<(usize, usize)> = Vec::new();
    let mut start: usize = 0;
    while start < chars.len()
        invariant
            start <= chars.len(),
            cs == chars@,
            w == width as int,
            w >= 1,
            rows@.map_values(|p: (usize, usize)| (p.0 as int, p.1 as int)) + rows_from(
                cs,
                w,
                start as int,
            ) == rows_from(cs, w, 0),
        decreases chars.len() - start,
    {
        let end = if chars.len() - start <= width {
            chars.len()
        } else {
            last_break(chars, start, start + width)
        };
        proof {
            lemma_next_end_progress(cs, start as int, w);
            assert(end as int == next_end(cs, start as int, w));
            assert(rows_from(cs, w, start as int) == seq![(start as int, end as int)] + rows_from(
                cs,
                w,
                end as int,
            ));
        }
        let ghost before = rows@;
        rows.push((start, end));
        proof {
            assert(rows@.map_values(|p: (usize, usize)| (p.0 as int, p.1 as int)) =~= before.map_values(
                |p: (usize, usize)| (p.0 as int, p.1 as int),
            ) + seq![(start as int, end as int)]);
        }
        start = end;
    }
    assert(rows_from(cs, w, start as int) =~= seq![]);
    assert(rows@.map_values(|p: (usize, usize)| (p.0 as int, p.1 as int)) =~= rows_from(cs, w, 0));
    rows
}

impl WrapLayout {
    /// Maps a logical cursor `(cursor_row, cursor_col)` to its visual
    /// `(visual_row, visual_col)`: the first row of `cursor_row` whose range
    /// holds `cursor_col`, or else the end of that line's last row
    /// (`cursor_col` equal to the line's length); `(0, 0)` for a row with no
    /// visual rows at all.
    pub fn cursor_position(&self, cursor_row: usize, cursor_col: usize) -> (r: (usize, usize))
        ensures
            r == cursor_spec(self.rows@, cursor_row as int, cursor_col as int),
    {
        let mut last_of_line: Option<usize> = None;
        let mut vi: usize = 0;
        while vi < self.rows.len()
            invariant
                vi <= self.rows.len(),
                forall|k: int|
                    0 <= k < vi ==> !hits(#[trigger] self.rows@[k], cursor_row as int, cursor_col as int),
                last_of_line == last_row_of(self.rows@, cursor_row as int, vi as int),
            decreases self.rows.len() - vi,
        {
            let r = self.rows[vi];
            if r.logical_line == cursor_row {
                last_of_line = Some(vi);
                if cursor_col >= r.start_col && cursor_col < r.end_col {
                    proof {
                        lemma_first_hit(self.rows@, cursor_row as int, cursor_col as int, vi as int);
                    }
                    return (vi, cursor_col - r.start_col);
                }
            }
            vi = vi + 1;
        }
        proof {
            lemma_no_hit(self.rows@, cursor_row as int, cursor_col as int);
            lemma_last_row_bound(self.rows@, cursor_row as int, self.rows@.len() as int);
        }
        if let Some(vi) = last_of_line {
            let r = self.rows[vi];
            let col = if cursor_col >= r.start_col {
                cursor_col - r.start_col
            } else {
                0
            };
            return (vi, col);
        }
        (0, 0)
    }
}

/// Whether visual row `r` is on logical line `row` and holds column `col`.
pub open spec fn hits(r: VisualRow, row: int, col: int) -> bool {
    r.logical_line == row && r.start_col <= col < r.end_col
}

/// Index of the last row among `rows[..n]` on logical line `row`, if any.
pub open spec fn last_row_of(rows: Seq<VisualRow>, row: int, n: int) -> Option<usize>
    decreases n,
{
    if n <= 0 {
        None
    } else if rows[n - 1].logical_line == row {
        Some((n - 1) as usize)
    } else {
        last_row_of(rows, row, n - 1)
    }
}

/// Index of the first row among `rows[i..]` that hits `(row, col)`.
pub open spec fn first_hit_from(rows: Seq<VisualRow>, row: int, col: int, i: int) -> Option<int>
    decreases rows.len() - i,
{
    if i >= rows.len() || i < 0 {
        None
    } else if hits(rows[i], row, col) {
        Some(i)
    } else {
        first_hit_from(rows, row, col, i + 1)
    }
}

/// Where the logical cursor `(row, col)` lands among `rows`.
pub open spec fn cursor_spec(rows: Seq<VisualRow>, row: int, col: int) -> (usize, usize) {
    match first_hit_from(rows, row, col, 0) {
        Some(i) => (i as usize, (col - rows[i].start_col) as usize),
        None => match last_row_of(rows, row, rows.len() as int) {
            Some(i) => (
                i,
                if col >= rows[i as int].start_col {
                    (col - rows[i as int].start_col) as usize
                } else {
                    0usize
                },
            ),
            None => (0usize, 0usize),
        },
    }
}

proof fn lemma_last_row_bound(rows: Seq<VisualRow>, row: int, n: int)
    requires
        n <= rows.len(),
    ensures
        last_row_of(rows, row, n) matches Some(i) ==> 0 <= i < n,
    decreases n,
{
    if n > 0 && rows[n - 1].logical_line != row {
        lemma_last_row_bound(rows, row, n - 1);
    }
}

proof fn lemma_first_hit_none_prefix(rows: Seq<VisualRow>, row: int, col: int, i: int, j: int)
    requires
        0 <= i <= j <= rows.len(),
        forall|k: int| i <= k < j ==> !hits(#[trigger] rows[k], row, col),
    ensures
        first_hit_from(rows, row, col, i) == first_hit_from(rows, row, col, j),
    decreases j - i,
{
    if i < j {
        lemma_first_hit_none_prefix(rows, row, col, i + 1, j);
    }
}

proof fn lemma_first_hit(rows: Seq<VisualRow>, row: int, col: int, vi: int)
    requires
        0 <= vi < rows.len(),
        forall|k: int| 0 <= k < vi ==> !hits(#[trigger] rows[k], row, col),
        hits(rows[vi], row, col),
    ensures
        first_hit_from(rows, row, col, 0) == Some(vi),
{
    lemma_first_hit_none_prefix(rows, row, col, 0, vi);
}

proof fn lemma_no_hit(rows: Seq<VisualRow>, row: int, col: int)
    requires
        forall|k: int| 0 <= k < rows.len() ==> !hits(#[trigger] rows[k], row, col),
    ensures
        first_hit_from(rows, row, col, 0) == None::<int>,
{
    lemma_first_hit_none_prefix(rows, row, col, 0, rows.len() as int);
}

/// Builds the [`WrapLayout`] for `lines` wrapped at `width` columns. A
/// `width` of 0 is treated as 1.
pub fn layout(lines: &[String], width: usize) -> (out: WrapLayout)
    ensures
        rows_view(out.rows@) == layout_spec(lines_view(lines@), width as int),
{
    let ghost ls = lines_view(lines@);
    let mut rows: Vec<VisualRow> = Vec::new();
    let mut li: usize = 0;
    while li < lines.len()
        invariant
            li <= lines.len(),
            ls == lines_view(lines@),
            rows_view(rows@) == layout_rows(ls, width as int, li as int),
        decreases lines.len() - li,
    {
        let chars = chars_of(lines[li].as_str());
        let parts = wrap_line(&chars, width);
        let ghost before = rows@;
        let ghost mapped = wrap_spec(ls[li as int], width as int).map_values(
            |p: (int, int)| (li as int, p.0, p.1),
        );
        assert(ls[li as int] == chars@);
        let mut k: usize = 0;
        while k < parts.len()
            invariant
                k <= parts.len(),
                parts@.map_values(|p: (usize, usize)| (p.0 as int, p.1 as int)) == wrap_spec(
                    ls[li as int],
                    width as int,
                ),
                mapped == wrap_spec(ls[li as int], width as int).map_values(
                    |p: (int, int)| (li as int, p.0, p.1),
                ),
                rows_view(rows@) == rows_view(before) + mapped.take(k as int),
            decreases parts.len() - k,
        {
            let (s, e) = parts[k];
            let ghost prev = rows@;
            rows.push(VisualRow { logical_line: li, start_col: s, end_col: e });
            proof {
                assert(parts@.map_values(|p: (usize, usize)| (p.0 as int, p.1 as int))[k as int]
                    == (s as int, e as int));
                assert(mapped[k as int] == (li as int, s as int, e as int));
                assert(rows_view(rows@) =~= rows_view(prev) + seq![(li as int, s as int, e as int)]);
                assert(mapped.take(k as int + 1) =~= mapped.take(k as int) + seq![mapped[k as int]]);
            }
            k = k + 1;
        }
        proof {
            assert(mapped.len() == parts@.len());
            assert(mapped.take(k as int) =~= mapped);
            assert(rows_view(rows@) =~= layout_rows(ls, width as int, li as int + 1));
        }
        li = li + 1;
    }
    if rows.len() == 0 {
        rows.push(VisualRow { logical_line: 0, start_col: 0, end_col: 0 });
        assert(rows_view(rows@) =~= seq![(0int, 0int, 0int)]);
    }
    WrapLayout { rows }
}

/// The substring of `line` a `row` covers (sliced by char index).
pub fn row_str(line: &str, row: &VisualRow) -> (out: String)
    requires
        row.start_col <= row.end_col,
    ensures
        out@ == line@.subrange(
            if row.start_col <= line@.len() { row.start_col as int } else { line@.len() as int },
            if row.end_col <= line@.len() { row.end_col as int } else { line@.len() as int },
        ),
{
    let chars = chars_of(line);
    let n = chars.len();
    let s = if row.start_col <= n {
        row.start_col
    } else {
        n
    };
    let e = if row.end_col <= n {
        row.end_col
    } else {
        n
    };
    let mut out = String::new();
    let mut i = s;
    while i < e
        invariant
            s <= i <= e <= n,
            n == chars@.len(),
            chars@ == line@,
            out@ == chars@.subrange(s as int, i as int),
        decreases e - i,
    {
        crate::text::push_char(&mut out, chars[i]);
        i = i + 1;
        assert(out@ =~= chars@.subrange(s as int, i as int));
    }
    out
}

} // verus!

verus! {

proof fn lemma_rows_from_shape(cs: Seq<char>, w: int, s: int)
    requires
        w >= 1,
        0 <= s <= cs.len(),
    ensures
        s == cs.len() ==> rows_from(cs, w, s).len() == 0,
        s < cs.len() ==> {
            let r = rows_from(cs, w, s);
            &&& r.len() >= 1
            &&& r[0].0 == s
            &&& r[r.len() - 1].1 == cs.len()
            &&& forall|k: int| 0 <= k < r.len() - 1 ==> #[trigger] r[k].1 == r[k + 1].0
            &&& forall|k: int|
                0 <= k < r.len() ==> s <= #[trigger] r[k].0 < r[k].1 <= cs.len() && r[k].1 - r[k].0
                    <= w
        },
    decreases cs.len() - s,
{
    if s < cs.len() {
        lemma_next_end_progress(cs, s, w);
        let e = next_end(cs, s, w);
        lemma_rows_from_shape(cs, w, e);
        let rest = rows_from(cs, w, e);
        let r = rows_from(cs, w, s);
        assert(r == seq![(s, e)] + rest);
        assert forall|k: int| 0 <= k < r.len() - 1 implies #[trigger] r[k].1 == r[k + 1].0 by {
            if k > 0 {
                assert(r[k] == rest[k - 1]);
                assert(r[k + 1] == rest[k]);
            }
        }
        assert forall|k: int| 0 <= k < r.len() implies s <= #[trigger] r[k].0 < r[k].1 <= cs.len()
            && r[k].1 - r[k].0 <= w by {
            if k > 0 {
                assert(r[k] == rest[k - 1]);
            }
        }
    }
}

/// Wrapping partitions a logical line: its rows start at column 0, end at
/// the line's length, each row starts where the previous one ended, and no
/// row is wider than the (effective) width. A non-empty line's rows are all
/// non-empty, so wrapping always makes progress; an empty line is one empty
/// row.
pub proof fn lemma_wrap_partitions_line(cs: Seq<char>, width: int)
    ensures
        ({
            let r = wrap_spec(cs, width);
            &&& r.len() >= 1
            &&& r[0].0 == 0
            &&& r[r.len() - 1].1 == cs.len()
            &&& forall|k: int| 0 <= k < r.len() - 1 ==> #[trigger] r[k].1 == r[k + 1].0
            &&& forall|k: int|
                0 <= k < r.len() ==> 0 <= #[trigger] r[k].0 <= r[k].1 <= cs.len() && r[k].1 - r[k].0
                    <= eff_width(width)
            &&& cs.len() > 0 ==> forall|k: int| 0 <= k < r.len() ==> #[trigger] r[k].0 < r[k].1
        }),
{
    if cs.len() > 0 {
        lemma_rows_from_shape(cs, eff_width(width), 0);
    }
}

/// A row that ends before the line does either breaks right after a
/// whitespace char or is a hard split exactly `width` chars wide.
pub proof fn lemma_wrap_breaks_after_space_or_at_width(cs: Seq<char>, width: int, k: int)
    requires
        0 <= k < wrap_spec(cs, width).len() - 1,
    ensures
        ({
            let r = wrap_spec(cs, width);
            is_ws(cs[r[k].1 - 1]) || r[k].1 - r[k].0 == eff_width(width)
        }),
{
    lemma_wrap_partitions_line(cs, width);
    lemma_rows_from_nonlast(cs, eff_width(width), 0, k);
}

proof fn lemma_break_at_ws(cs: Seq<char>, start: int, i: int, hard_end: int)
    requires
        start <= i <= hard_end,
    ensures
        break_at(cs, start, i, hard_end) == hard_end || (start < break_at(cs, start, i, hard_end)
            && is_ws(cs[break_at(cs, start, i, hard_end) - 1])),
    decreases i - start,
{
    if i > start && !is_ws(cs[i - 1]) {
        lemma_break_at_ws(cs, start, i - 1, hard_end);
    }
}

proof fn lemma_rows_from_nonlast(cs: Seq<char>, w: int, s: int, k: int)
    requires
        w >= 1,
        0 <= s <= cs.len(),
        0 <= k < rows_from(cs, w, s).len() - 1,
    ensures
        ({
            let r = rows_from(cs, w, s);
            is_ws(cs[r[k].1 - 1]) || r[k].1 - r[k].0 == w
        }),
    decreases cs.len() - s,
{
    lemma_rows_from_shape(cs, w, s);
    lemma_next_end_progress(cs, s, w);
    let e = next_end(cs, s, w);
    let rest = rows_from(cs, w, e);
    let r = rows_from(cs, w, s);
    assert(r == seq![(s, e)] + rest);
    if k == 0 {
        lemma_rows_from_shape(cs, w, e);
        if cs.len() - s > w {
            lemma_break_at_ws(cs, s, s + w, s + w);
        } else {
            assert(e == cs.len());
            assert(rest.len() == 0);
        }
    } else {
        assert(r[k] == rest[k - 1]);
        lemma_rows_from_nonlast(cs, w, e, k - 1);
    }
}

proof fn lemma_rows_from_cover(cs: Seq<char>, w: int, s: int, col: int)
    requires
        w >= 1,
        0 <= s <= col < cs.len(),
    ensures
        exists|k: int|
            0 <= k < rows_from(cs, w, s).len() && #[trigger] rows_from(cs, w, s)[k].0 <= col
                < rows_from(cs, w, s)[k].1,
    decreases cs.len() - s,
{
    lemma_next_end_progress(cs, s, w);
    let e = next_end(cs, s, w);
    let rest = rows_from(cs, w, e);
    let r = rows_from(cs, w, s);
    assert(r == seq![(s, e)] + rest);
    if col < e {
        assert(r[0].0 <= col < r[0].1);
    } else {
        lemma_rows_from_cover(cs, w, e, col);
        let k = choose|k: int| 0 <= k < rest.len() && #[trigger] rest[k].0 <= col < rest[k].1;
        assert(r[k + 1] == rest[k]);
        assert(r[k + 1].0 <= col < r[k + 1].1);
    }
}

proof fn lemma_layout_rows_cover(lines: Seq<Seq<char>>, width: int, n: int, li: int, col: int)
    requires
        0 <= li < n <= lines.len(),
        0 <= col < lines[li].len(),
    ensures
        exists|j: int|
            0 <= j < layout_rows(lines, width, n).len() && #[trigger] layout_rows(lines, width, n)[j]
                .0 == li && layout_rows(lines, width, n)[j].1 <= col < layout_rows(lines, width, n)[j].2,
    decreases n,
{
    let prefix = layout_rows(lines, width, n - 1);
    let mapped = wrap_spec(lines[n - 1], width).map_values(|p: (int, int)| (n - 1, p.0, p.1));
    let all = layout_rows(lines, width, n);
    assert(all == prefix + mapped);
    if li == n - 1 {
        lemma_rows_from_cover(lines[li], eff_width(width), 0, col);
        let r = rows_from(lines[li], eff_width(width), 0);
        let k = choose|k: int| 0 <= k < r.len() && #[trigger] r[k].0 <= col < r[k].1;
        assert(all[prefix.len() + k] == mapped[k]);
        assert(all[prefix.len() + k].0 == li);
    } else {
        lemma_layout_rows_cover(lines, width, n - 1, li, col);
        let j = choose|j: int|
            0 <= j < prefix.len() && #[trigger] prefix[j].0 == li && prefix[j].1 <= col < prefix[j].2;
        assert(all[j] == prefix[j]);
    }
}

proof fn lemma_first_hit_found(rows: Seq<VisualRow>, row: int, col: int, i: int, j: int)
    requires
        0 <= i <= j < rows.len(),
        hits(rows[j], row, col),
    ensures
        first_hit_from(rows, row, col, i) matches Some(k) && i <= k <= j && hits(rows[k], row, col),
    decreases j - i,
{
    if !hits(rows[i], row, col) {
        lemma_first_hit_found(rows, row, col, i + 1, j);
    }
}

/// The cursor lands on the character it edits: for any layout `layout`
/// built, any logical line `li` and any column `col` inside that line,
/// [`WrapLayout::cursor_position`] picks a visual row of line `li` whose
/// range holds `col`, at visual column `col - start_col`.
pub proof fn lemma_cursor_lands_on_its_char(rows: Seq<VisualRow>, lines: Seq<Seq<char>>, width: int, li: int, col: int)
    requires
        rows_view(rows) == layout_spec(lines, width),
        rows.len() <= usize::MAX,
        0 <= li < lines.len(),
        0 <= col < lines[li].len(),
    ensures
        ({
            let (vi, vc) = cursor_spec(rows, li, col);
            &&& 0 <= vi < rows.len()
            &&& rows[vi as int].logical_line == li
            &&& rows[vi as int].start_col <= col < rows[vi as int].end_col
            &&& rows[vi as int].start_col + vc == col
        }),
{
    lemma_layout_rows_cover(lines, width, lines.len() as int, li, col);
    let all = layout_rows(lines, width, lines.len() as int);
    let j = choose|j: int| 0 <= j < all.len() && #[trigger] all[j].0 == li && all[j].1 <= col < all[j].2;
    assert(layout_spec(lines, width) == all);
    assert(rows_view(rows)[j] == row_view(rows[j]));
    assert(hits(rows[j], li, col));
    lemma_first_hit_found(rows, li, col, 0, j);
    let k = first_hit_from(rows, li, col, 0)->Some_0;
    assert(cursor_spec(rows, li, col) == (k as usize, (col - rows[k].start_col) as usize));
}

} // verus!
