//! The staging gesture: resolving what `space` stages at the cursor (the
//! whole file, one hunk, or the selected changed lines of one hunk) and
//! running it against the git backend in the target's direction; and the
//! staging panel's toggle.
use vstd::prelude::*;

use crate::app::{App, Mode, clamp_cursor, concat2, no_backend_staging_text};
use crate::decimal::{dec, push_u64};
use crate::diff::LineOrigin;
use crate::diff_view::DiffViewState;
use crate::git::{DiffTarget, GitError, StagingMode, git_error_text};
use crate::restore::{cursor_file, read_only_text, synthetic};
use crate::rows::{Row, RowV, rows_view};
use crate::stage_ops::{StageOps, unavailable};
use crate::text::push_all;

verus! {

/// Whether `r` is a diff line row.
pub open spec fn is_line(r: RowV) -> bool {
    r is Line
}

/// The hunk a diff line row belongs to.
pub open spec fn hunk_of(r: RowV) -> int {
    r->Line_0.hunk_index
}

/// Whether `r` is a diff line row that adds or removes a line.
pub open spec fn is_change(r: RowV) -> bool {
    r is Line && r->Line_0.origin != LineOrigin::Context
}

/// Whether the line rows of `rows[lo..=hi]` belong to more than one file.
pub open spec fn spans_files(rows: Seq<RowV>, fr: Seq<usize>, lo: int, hi: int) -> bool {
    exists|i: int, j: int|
        lo <= i <= hi && lo <= j <= hi && is_line(#[trigger] rows[i]) && is_line(#[trigger] rows[j])
            && fr[i] != fr[j]
}

/// The file of the first line row of `rows[lo..=hi]`, if any.
pub open spec fn first_line_file(rows: Seq<RowV>, fr: Seq<usize>, lo: int, hi: int) -> Option<int> {
    if exists|i: int| lo <= i <= hi && is_line(#[trigger] rows[i]) {
        let i = choose|i: int|
            lo <= i <= hi && is_line(rows[i]) && forall|j: int| lo <= j < i ==> !is_line(#[trigger] rows[j]);
        Some(fr[i] as int)
    } else {
        None
    }
}

/// Whether the line rows of `rows[a..b)` belong to more than one hunk.
pub open spec fn spans_hunks(rows: Seq<RowV>, a: int, b: int) -> bool {
    exists|i: int, j: int|
        a <= i < b && a <= j < b && is_line(#[trigger] rows[i]) && is_line(#[trigger] rows[j])
            && hunk_of(rows[i]) != hunk_of(rows[j])
}

/// How many line rows of hunk `h` there are in `rows[a..b)`.
pub open spec fn count_in_hunk(rows: Seq<RowV>, h: int, a: int, b: int) -> nat
    decreases b - a,
{
    if b <= a {
        0
    } else {
        count_in_hunk(rows, h, a, b - 1) + if is_line(rows[b - 1]) && hunk_of(rows[b - 1]) == h {
            1nat
        } else {
            0nat
        }
    }
}

/// The body indices (counted from the section's first row `start`, per
/// hunk) of the changed lines among `rows[a..b)`, in order.
pub open spec fn changed_indices(rows: Seq<RowV>, start: int, a: int, b: int) -> Seq<int>
    decreases b - a,
{
    if b <= a {
        seq![]
    } else {
        let rest = changed_indices(rows, start, a, b - 1);
        if is_change(rows[b - 1]) {
            rest.push(count_in_hunk(rows, hunk_of(rows[b - 1]), start, b - 1) as int)
        } else {
            rest
        }
    }
}

proof fn lemma_count_before_insert(rows: Seq<RowV>, x: RowV, h: int, a: int, j: int, c: int)
    requires
        0 <= a,
        a <= c <= j <= rows.len(),
    ensures
        count_in_hunk(rows.insert(j, x), h, a, c) == count_in_hunk(rows, h, a, c),
    decreases c - a,
{
    if c > a {
        lemma_count_before_insert(rows, x, h, a, j, c - 1);
        assert(rows.insert(j, x)[c - 1] == rows[c - 1]);
    }
}

proof fn lemma_count_after_insert(rows: Seq<RowV>, x: RowV, h: int, a: int, j: int, c: int)
    requires
        0 <= a <= j <= c <= rows.len(),
        x is Annotation,
    ensures
        count_in_hunk(rows.insert(j, x), h, a, c + 1) == count_in_hunk(rows, h, a, c),
    decreases c - j,
{
    let r2 = rows.insert(j, x);
    if c == j {
        lemma_count_before_insert(rows, x, h, a, j, j);
        assert(r2[j] == x);
    } else {
        lemma_count_after_insert(rows, x, h, a, j, c - 1);
        assert(r2[c] == rows[c - 1]);
    }
}

/// Annotation display rows are not hunk body lines: putting one anywhere
/// among the rows counted leaves every line count unchanged.
pub proof fn lemma_annotation_rows_are_not_counted(rows: Seq<RowV>, x: RowV, h: int, a: int, j: int, b: int)
    requires
        0 <= a <= j <= b <= rows.len(),
        x is Annotation,
    ensures
        count_in_hunk(rows.insert(j, x), h, a, b + 1) == count_in_hunk(rows, h, a, b),
{
    lemma_count_after_insert(rows, x, h, a, j, b);
}

/// The body indices a Visual selection stages do not depend on annotation
/// display rows: putting one anywhere after the section's first row leaves
/// the indices of the selected changed lines unchanged.
pub proof fn lemma_annotation_rows_leave_staged_indices(
    rows: Seq<RowV>,
    x: RowV,
    start: int,
    a: int,
    j: int,
    b: int,
)
    requires
        0 <= start <= a <= j <= b <= rows.len(),
        x is Annotation,
    ensures
        changed_indices(rows.insert(j, x), start, a, b + 1) == changed_indices(rows, start, a, b),
{
    lemma_changed_after_insert(rows, x, start, a, j, b);
}

proof fn lemma_changed_before_insert(rows: Seq<RowV>, x: RowV, start: int, a: int, j: int, c: int)
    requires
        0 <= start <= a <= c <= j <= rows.len(),
    ensures
        changed_indices(rows.insert(j, x), start, a, c) == changed_indices(rows, start, a, c),
    decreases c - a,
{
    if c > a {
        lemma_changed_before_insert(rows, x, start, a, j, c - 1);
        let r2 = rows.insert(j, x);
        assert(r2[c - 1] == rows[c - 1]);
        lemma_count_before_insert(rows, x, hunk_of(rows[c - 1]), start, j, c - 1);
    }
}

proof fn lemma_changed_after_insert(rows: Seq<RowV>, x: RowV, start: int, a: int, j: int, c: int)
    requires
        0 <= start <= a <= j <= c <= rows.len(),
        x is Annotation,
    ensures
        changed_indices(rows.insert(j, x), start, a, c + 1) == changed_indices(rows, start, a, c),
    decreases c - j,
{
    let r2 = rows.insert(j, x);
    if c == j {
        lemma_changed_before_insert(rows, x, start, a, j, j);
        assert(r2[j] == x);
        assert(!is_change(x));
    } else {
        lemma_changed_after_insert(rows, x, start, a, j, c - 1);
        assert(r2[c] == rows[c - 1]);
        if is_change(rows[c - 1]) {
            lemma_count_after_insert(rows, x, hunk_of(rows[c - 1]), start, j, c - 1);
        }
    }
}

/// The hunk of the last changed line among `rows[a..b)`, if any.
pub open spec fn last_changed_hunk(rows: Seq<RowV>, a: int, b: int) -> Option<int>
    decreases b - a,
{
    if b <= a {
        None
    } else if is_change(rows[b - 1]) {
        Some(hunk_of(rows[b - 1]))
    } else {
        last_changed_hunk(rows, a, b - 1)
    }
}

/// What a Visual selection between `anchor` and the cursor stages: the
/// selection's line rows must all belong to one file and, within its
/// section, to one hunk, and include a changed line; the result is that
/// hunk and the body indices of its selected changed lines, counted over
/// the hunk's line rows from 0.
pub open spec fn visual_selection_spec(view: DiffViewState, anchor: int) -> Result<
    (int, Seq<int>),
    Seq<char>,
> {
    let rows = rows_view(view.rows@);
    let fr = view.file_of_row@;
    let lo = if anchor <= view.cursor { anchor } else { view.cursor as int };
    let hi = if anchor <= view.cursor { view.cursor as int } else { anchor };
    if spans_files(rows, fr, lo, hi) {
        Err("selection spans multiple files"@)
    } else {
        match first_line_file(rows, fr, lo, hi) {
            None => Err("no changed lines in selection"@),
            Some(f) => {
                let start = view.start_of(f);
                let a = if lo > start { lo } else { start };
                let b = if hi + 1 < view.end_of(f) { hi + 1 } else { view.end_of(f) };
                if spans_hunks(rows, a, b) {
                    Err("selection spans multiple hunks"@)
                } else {
                    match last_changed_hunk(rows, a, b) {
                        None => Err("no changed lines in selection"@),
                        Some(h) => Ok((h, changed_indices(rows, start, a, b))),
                    }
                }
            },
        }
    }
}

/// The view of a selection result.
pub open spec fn selection_view(r: Result<(usize, Vec<usize>), &'static str>) -> Result<
    (int, Seq<int>),
    Seq<char>,
> {
    match r {
        Ok((h, lines)) => Ok((h as int, lines@.map_values(|i: usize| i as int))),
        Err(e) => Err(e@),
    }
}

/// The number of line rows of hunk `h` in `rows[a..b)`.
fn count_hunk_lines(rows: &Vec<Row>, h: usize, a: usize, b: usize) -> (n: usize)
    requires
        a <= b <= rows@.len(),
    ensures
        n == count_in_hunk(rows_view(rows@), h as int, a as int, b as int),
{
    let mut n: usize = 0;
    let mut i = a;
    while i < b
        invariant
            a <= i <= b <= rows@.len(),
            n == count_in_hunk(rows_view(rows@), h as int, a as int, i as int),
            n <= i - a,
        decreases b - i,
    {
        assert(rows_view(rows@)[i as int] == rows@[i as int]@);
        if let Row::Line(l) = &rows[i] {
            if l.hunk_index == h {
                n = n + 1;
            }
        }
        i = i + 1;
    }
    n
}

/// The first line row of `rows[lo..=hi]` and its file, checking that every
/// line row there belongs to that file: `Err` when they span files.
fn span_file(rows: &Vec<Row>, fr: &Vec<usize>, lo: usize, hi: usize) -> (r: Result<
    Option<(usize, usize)>,
    (),
>)
    requires
        lo <= hi < rows@.len(),
        fr@.len() == rows@.len(),
    ensures
        r is Err <==> spans_files(rows_view(rows@), fr@, lo as int, hi as int),
        r matches Ok(None) ==> forall|j: int| lo <= j <= hi ==> !is_line(#[trigger] rows_view(rows@)[j]),
        r matches Ok(Some((k, f))) ==> {
            &&& lo <= k <= hi
            &&& is_line(rows_view(rows@)[k as int])
            &&& f == fr@[k as int]
            &&& forall|j: int| lo <= j < k ==> !is_line(#[trigger] rows_view(rows@)[j])
        },
{
    let ghost rv = rows_view(rows@);
    let mut first: Option<(usize, usize)> = None;
    let mut i = lo;
    while i <= hi
        invariant
            lo <= i <= hi + 1,
            hi < rows.len(),
            fr@.len() == rows@.len(),
            rv == rows_view(rows@),
            first is None ==> forall|j: int| lo <= j < i ==> !is_line(#[trigger] rv[j]),
            first matches Some((k, f)) ==> {
                &&& lo <= k < i
                &&& is_line(rv[k as int])
                &&& f == fr@[k as int]
                &&& forall|j: int| lo <= j < k ==> !is_line(#[trigger] rv[j])
                &&& forall|j: int| lo <= j < i && is_line(#[trigger] rv[j]) ==> fr@[j] == f
            },
        decreases hi + 1 - i,
    {
        assert(rv[i as int] == rows@[i as int]@);
        if let Row::Line(_) = &rows[i] {
            let f = fr[i];
            match first {
                None => {
                    first = Some((i, f));
                },
                Some((k, g)) => {
                    if f != g {
                        proof {
                            assert(is_line(rv[k as int]) && is_line(rv[i as int]));
                        }
                        return Err(());
                    }
                },
            }
        }
        i = i + 1;
    }
    proof {
        if spans_files(rv, fr@, lo as int, hi as int) {
            let (x, y) = choose|x: int, y: int|
                lo <= x <= hi && lo <= y <= hi && is_line(#[trigger] rv[x]) && is_line(#[trigger] rv[y])
                    && fr@[x] != fr@[y];
            assert(is_line(rv[x]));
        }
    }
    Ok(first)
}

/// The changed lines of `rows[a..b)` as body indices counted from the
/// section start `start`, and the hunk of the last one; `Err` when the line
/// rows there span hunks.
fn hunk_selection(rows: &Vec<Row>, start: usize, a: usize, b: usize) -> (r: Result<
    (Option<usize>, Vec<usize>),
    (),
>)
    requires
        start <= a <= b <= rows@.len(),
    ensures
        r is Err <==> spans_hunks(rows_view(rows@), a as int, b as int),
        r matches Ok((last, lines)) ==> {
            &&& (last matches Some(h) ==> last_changed_hunk(rows_view(rows@), a as int, b as int) == Some(
                h as int,
            ))
            &&& (last is None ==> last_changed_hunk(rows_view(rows@), a as int, b as int) is None)
            &&& lines@.map_values(|x: usize| x as int) == changed_indices(
                rows_view(rows@),
                start as int,
                a as int,
                b as int,
            )
        },
{
    let ghost rv = rows_view(rows@);
    let mut hunk0: Option<usize> = None;
    let mut last: Option<usize> = None;
    let mut lines: Vec<usize> = Vec::new();
    let mut i = a;
    while i < b
        invariant
            start <= a <= i <= b <= rows@.len(),
            rv == rows_view(rows@),
            hunk0 is None ==> forall|j: int| a <= j < i ==> !is_line(#[trigger] rv[j]),
            hunk0 matches Some(h) ==> forall|j: int|
                a <= j < i && is_line(#[trigger] rv[j]) ==> hunk_of(rv[j]) == h,
            hunk0 matches Some(h) ==> exists|j: int|
                a <= j < i && is_line(#[trigger] rv[j]) && hunk_of(rv[j]) == h,
            !spans_hunks(rv, a as int, i as int),
            last matches Some(h) ==> last_changed_hunk(rv, a as int, i as int) == Some(h as int),
            last is None ==> last_changed_hunk(rv, a as int, i as int) is None,
            lines@.map_values(|x: usize| x as int) == changed_indices(rv, start as int, a as int, i as int),
        decreases b - i,
    {
        assert(rv[i as int] == rows@[i as int]@);
        let ghost before = lines@;
        if let Row::Line(l) = &rows[i] {
            let h = l.hunk_index;
            match hunk0 {
                None => {
                    hunk0 = Some(h);
                },
                Some(h0) => {
                    if h != h0 {
                        proof {
                            assert(spans_hunks(rv, a as int, b as int)) by {
                                let j = choose|j: int|
                                    a <= j < i && is_line(#[trigger] rv[j]) && hunk_of(rv[j]) == h0;
                                assert(is_line(rv[i as int]) && hunk_of(rv[i as int]) == h);
                            }
                        }
                        return Err(());
                    }
                },
            }
            if !matches!(l.origin, LineOrigin::Context) {
                let idx = count_hunk_lines(rows, h, start, i);
                lines.push(idx);
                last = Some(h);
                proof {
                    assert(lines@.map_values(|x: usize| x as int) =~= before.map_values(
                        |x: usize| x as int,
                    ).push(idx as int));
                }
            }
        }
        proof {
            if spans_hunks(rv, a as int, i + 1) {
                let (x, y) = choose|x: int, y: int|
                    a <= x < i + 1 && a <= y < i + 1 && is_line(#[trigger] rv[x]) && is_line(#[trigger] rv[y])
                        && hunk_of(rv[x]) != hunk_of(rv[y]);
                assert(is_line(rv[x]));
            }
        }
        i = i + 1;
    }
    Ok((last, lines))
}

/// Resolves a Visual selection between `anchor` and the cursor into the
/// hunk and body-line indices to stage (see [`visual_selection_spec`]).
pub fn visual_stage_selection(view: &DiffViewState, anchor: usize) -> (r: Result<
    (usize, Vec<usize>),
    &'static str,
>)
    requires
        view.wf(),
        anchor < view.rows@.len(),
        view.cursor < view.rows@.len(),
    ensures
        selection_view(r) == visual_selection_spec(*view, anchor as int),
{
    proof {
        reveal_strlit("selection spans multiple files");
        reveal_strlit("selection spans multiple hunks");
        reveal_strlit("no changed lines in selection");
    }
    let ghost rv = rows_view(view.rows@);
    let ghost fr = view.file_of_row@;
    let (lo, hi) = if anchor <= view.cursor {
        (anchor, view.cursor)
    } else {
        (view.cursor, anchor)
    };
    assert(hi < view.rows.len());
    let (k, f) = match span_file(&view.rows, &view.file_of_row, lo, hi) {
        Err(()) => return Err("selection spans multiple files"),
        Ok(None) => return Err("no changed lines in selection"),
        Ok(Some(p)) => p,
    };
    proof {
        let c = choose|c: int|
            lo <= c <= hi && is_line(rv[c]) && forall|j: int| lo <= j < c ==> !is_line(#[trigger] rv[j]);
        assert(lo <= c <= hi && is_line(rv[c]) && forall|j: int| lo <= j < c ==> !is_line(#[trigger] rv[j]));
        if c < k {
            assert(!is_line(rv[c]));
        }
        if k < c {
            assert(!is_line(rv[k as int]));
        }
        assert(first_line_file(rv, fr, lo as int, hi as int) == Some(f as int));
        lemma_row_in_section(*view, k as int);
        lemma_section_in_rows(*view, f as int);
    }
    let (start, end) = view.section_span(f);
    let a = if lo > start {
        lo
    } else {
        start
    };
    let b = if hi + 1 < end {
        hi + 1
    } else {
        end
    };
    match hunk_selection(&view.rows, start, a, b) {
        Err(()) => Err("selection spans multiple hunks"),
        Ok((None, _)) => Err("no changed lines in selection"),
        Ok((Some(h), lines)) => Ok((h, lines)),
    }
}

/// Every row lies in its file's section.
proof fn lemma_row_in_section(view: DiffViewState, i: int)
    requires
        view.wf(),
        0 <= i < view.rows@.len(),
    ensures
        view.file_of_row@[i] < view.files@.len(),
        view.start_of(view.file_of_row@[i] as int) <= i < view.end_of(view.file_of_row@[i] as int),
{
    let n = view.files@.len() as int;
    assert(n > 0);
    assert(view.end_of(n - 1) == view.rows@.len());
    let g = lemma_cover(view, i, n - 1);
    assert(view.start_of(g) <= i < view.end_of(g));
    assert(view.file_of_row@[i] == g);
}

/// Some section among the first `m + 1` that starts at or before row `i`
/// (`i` below the end of section `m`) holds `i`.
proof fn lemma_cover(view: DiffViewState, i: int, m: int) -> (g: int)
    requires
        view.wf(),
        0 <= m < view.files@.len(),
        0 <= i < view.end_of(m),
    ensures
        0 <= g <= m,
        view.start_of(g) <= i < view.end_of(g),
    decreases m,
{
    if view.start_of(m) <= i {
        m
    } else {
        assert(m > 0) by {
            if m == 0 {
                assert(view.header_row_of_file@[0] == 0);
            }
        }
        assert(view.end_of(m - 1) == view.start_of(m));
        lemma_cover(view, i, m - 1)
    }
}

/// A section ends within the rows.
proof fn lemma_section_in_rows(view: DiffViewState, f: int)
    requires
        view.wf(),
        0 <= f < view.files@.len(),
    ensures
        view.end_of(f) <= view.rows@.len(),
    decreases view.files@.len() - f,
{
    if f + 1 < view.files@.len() {
        assert(view.start_of(f + 1) < view.end_of(f + 1));
        lemma_section_in_rows(view, f + 1);
    }
}


/// What one `space` stages.
#[derive(Debug, Clone, PartialEq, Eq)]
pub enum StageGesture {
    /// The whole file.
    WholeFile,
    /// One hunk of the file.
    Hunk(usize),
    /// These changed body lines of one hunk.
    Lines(usize, Vec<usize>),
}

/// A gesture as plain values.
pub enum GestureV {
    WholeFile,
    Hunk(int),
    Lines(int, Seq<int>),
}

/// The view of a gesture.
pub open spec fn gesture_view(g: StageGesture) -> GestureV {
    match g {
        StageGesture::WholeFile => GestureV::WholeFile,
        StageGesture::Hunk(h) => GestureV::Hunk(h as int),
        StageGesture::Lines(h, ls) => GestureV::Lines(h as int, ls@.map_values(|i: usize| i as int)),
    }
}

/// The view of a resolution.
pub open spec fn resolution_view(r: Option<Result<StageGesture, &'static str>>) -> Option<
    Result<GestureV, Seq<char>>,
> {
    match r {
        Some(Ok(g)) => Some(Ok(gesture_view(g))),
        Some(Err(m)) => Some(Err(m@)),
        None => None,
    }
}

/// What `space` stages at the cursor: the whole file when forced or when
/// the file has no raw patch (a synthetic entry, such as an untracked
/// file); otherwise, in Visual mode, the selected changed lines of one hunk
/// (see [`visual_selection_spec`]); otherwise the hunk of the line or hunk
/// header under the cursor, or the whole file on its header or binary row.
/// Nothing on any other row.
pub open spec fn gesture_spec(app: App, force: bool) -> Option<Result<GestureV, Seq<char>>> {
    if force || synthetic(app.patches@, cursor_file(app)) {
        Some(Ok(GestureV::WholeFile))
    } else {
        match app.mode {
            Mode::Visual { anchor } => match visual_selection_spec(app.view, anchor as int) {
                Ok((h, ls)) => Some(Ok(GestureV::Lines(h, ls))),
                Err(m) => Some(Err(m)),
            },
            _ => if app.view.cursor < app.view.rows@.len() {
                match rows_view(app.view.rows@)[app.view.cursor as int] {
                    RowV::Line(l) => Some(Ok(GestureV::Hunk(l.hunk_index))),
                    RowV::HunkHeader { hunk_index, .. } => Some(Ok(GestureV::Hunk(hunk_index))),
                    RowV::FileHeader { .. } => Some(Ok(GestureV::WholeFile)),
                    RowV::Binary => Some(Ok(GestureV::WholeFile)),
                    _ => None,
                }
            } else {
                None
            },
        }
    }
}

/// Whether a Visual selection the gesture would read lies within the rows.
pub open spec fn selection_in_rows(app: App, force: bool) -> bool {
    (!force && !synthetic(app.patches@, cursor_file(app)) && app.mode is Visual) ==> {
        &&& app.mode->anchor < app.view.rows@.len()
        &&& app.view.cursor < app.view.rows@.len()
    }
}

/// Whether gestures under `t` stage (rather than unstage).
pub open spec fn stages(t: DiffTarget) -> bool {
    t.staging_mode_spec() == StagingMode::Stage
}

/// The footer message a gesture on `path` ends with, given what git gave
/// back: the past tense of the direction and what was staged, or the
/// error.
pub open spec fn gesture_text(
    g: GestureV,
    staging: bool,
    path: Seq<char>,
    result: Result<(), GitError>,
) -> Seq<char> {
    let verb = if staging {
        "staged"@
    } else {
        "unstaged"@
    };
    match result {
        Ok(_) => match g {
            GestureV::WholeFile => verb + " "@ + path,
            GestureV::Hunk(_) => verb + " hunk"@,
            GestureV::Lines(_, ls) => verb + " "@ + dec(ls.len()) + (if ls.len() == 1 {
                " line"@
            } else {
                " lines"@
            }),
        },
        Err(e) => git_error_text(e),
    }
}

/// How the staging gesture at the cursor left `new` from `old` (`ok` when
/// git ran and succeeded; `no_ops` without a git backend; `force` for the
/// whole file): refused with a footer message on a read-only target or
/// without a backend; nothing happens when no file or no stageable row is
/// under the cursor; a selection that cannot be staged says why; otherwise
/// the resolved gesture (see [`gesture_spec`]) runs in the target's
/// direction and ends as [`App::finish_stage_gesture`] says.
pub open spec fn stage_toggled(old: App, new: App, no_ops: bool, force: bool, ok: bool) -> bool {
    let read_only = old.target.staging_mode_spec() == StagingMode::ReadOnly;
    let only_message = new == (App { status_message: new.status_message, ..old });
    &&& read_only ==> !ok && new.message() == Some(read_only_text()) && only_message
    &&& !read_only && no_ops ==> !ok && new.message() == Some(no_backend_staging_text()) && only_message
    &&& !read_only && !no_ops && cursor_file(old) >= old.view.files@.len() ==> !ok && new == old
    &&& !read_only && !no_ops && cursor_file(old) < old.view.files@.len() ==> match gesture_spec(old, force) {
        None => !ok && new == old,
        Some(Err(m)) => !ok && new.message() == Some(m) && only_message,
        Some(Ok(g)) => exists|r: Result<(), GitError>|
            {
                &&& ok == (r is Ok)
                &&& new.message() == Some(
                    #[trigger] gesture_text(g, stages(old.target), old.view.files@[cursor_file(old)].path@, r),
                )
                &&& new == (App {
                    mode: if ok && old.mode is Visual {
                        Mode::Normal
                    } else {
                        old.mode
                    },
                    status_message: new.status_message,
                    ..old
                })
            },
    }
}

impl App {
    /// Resolves what `space` stages at the cursor (see [`gesture_spec`]).
    pub fn stage_gesture_at_cursor(&self, force_whole_file: bool) -> (r: Option<
        Result<StageGesture, &'static str>,
    >)
        requires
            self.wf(),
            selection_in_rows(*self, force_whole_file),
        ensures
            resolution_view(r) == gesture_spec(*self, force_whole_file),
    {
        let fi = self.view.file_of_cursor();
        let synth = fi >= self.patches.len() || self.patches[fi].is_none();
        if force_whole_file || synth {
            return Some(Ok(StageGesture::WholeFile));
        }
        match self.mode {
            Mode::Visual { anchor } => match visual_stage_selection(&self.view, anchor) {
                Ok((h, lines)) => Some(Ok(StageGesture::Lines(h, lines))),
                Err(m) => Some(Err(m)),
            },
            _ => {
                if self.view.cursor >= self.view.rows.len() {
                    return None;
                }
                let row = &self.view.rows[self.view.cursor];
                proof {
                    assert(rows_view(self.view.rows@)[self.view.cursor as int] == row@);
                }
                match row {
                    Row::Line(l) => Some(Ok(StageGesture::Hunk(l.hunk_index))),
                    Row::HunkHeader { hunk_index, .. } => Some(Ok(StageGesture::Hunk(*hunk_index))),
                    Row::FileHeader { .. } => Some(Ok(StageGesture::WholeFile)),
                    Row::Binary => Some(Ok(StageGesture::WholeFile)),
                    _ => None,
                }
            },
        }
    }

    /// Runs gesture `g` on file `fi` (at `path`) through `ops`, staging or
    /// unstaging as `staging` says.
    fn run_gesture<O: StageOps>(
        &self,
        ops: &O,
        g: &StageGesture,
        fi: usize,
        path: &str,
        staging: bool,
    ) -> (r: Result<(), GitError>)
        ensures
            !(g is WholeFile) && !(fi < self.patches@.len() && self.patches@[fi as int] is Some) ==> unavailable(
                r,
                "no patch available for this file"@,
            ),
    {
        proof {
            reveal_strlit("no patch available for this file");
        }
        match g {
            StageGesture::WholeFile => if staging {
                ops.stage_file(path)
            } else {
                ops.unstage_file(path)
            },
            StageGesture::Hunk(h) => if fi < self.patches.len() && self.patches[fi].is_some() {
                match &self.patches[fi] {
                    Some(raw) => ops.apply_hunk(raw, *h, !staging),
                    None => Err(GitError::Parse(String::from_str("no patch available for this file"))),
                }
            } else {
                Err(GitError::Parse(String::from_str("no patch available for this file")))
            },
            StageGesture::Lines(h, lines) => if fi < self.patches.len() && self.patches[fi].is_some() {
                match &self.patches[fi] {
                    Some(raw) => ops.apply_lines(raw, *h, lines.as_slice(), !staging),
                    None => Err(GitError::Parse(String::from_str("no patch available for this file"))),
                }
            } else {
                Err(GitError::Parse(String::from_str("no patch available for this file")))
            },
        }
    }

    /// Ends a gesture whose git step gave back `result`: on success the
    /// Visual selection is dropped; either way the footer says how it went
    /// (see [`gesture_text`]). Returns whether it succeeded, so that the
    /// caller reloads the diff.
    pub fn finish_stage_gesture(
        &mut self,
        g: &StageGesture,
        staging: bool,
        path: &str,
        result: Result<(), GitError>,
    ) -> (ok: bool)
        ensures
            ok == (result is Ok),
            final(self).message() == Some(gesture_text(gesture_view(*g), staging, path@, result)),
            *final(self) == (App {
                mode: if ok && old(self).mode is Visual {
                    Mode::Normal
                } else {
                    old(self).mode
                },
                status_message: final(self).status_message,
                ..*old(self)
            }),
    {
        let verb = if staging {
            "staged"
        } else {
            "unstaged"
        };
        proof {
            reveal_strlit("staged");
            reveal_strlit("unstaged");
            reveal_strlit(" ");
            reveal_strlit(" hunk");
            reveal_strlit(" line");
            reveal_strlit(" lines");
        }
        let message = match &result {
            Ok(_) => match g {
                StageGesture::WholeFile => {
                    let mut m = concat2(verb, " ");
                    push_all(&mut m, path);
                    m
                },
                StageGesture::Hunk(_) => concat2(verb, " hunk"),
                StageGesture::Lines(_, lines) => {
                    let mut m = concat2(verb, " ");
                    push_u64(&mut m, lines.len() as u64);
                    push_all(&mut m, if lines.len() == 1 {
                        " line"
                    } else {
                        " lines"
                    });
                    m
                },
            },
            Err(e) => e.message(),
        };
        let ok = result.is_ok();
        if ok {
            if let Mode::Visual { .. } = self.mode {
                self.mode = Mode::Normal;
            }
        }
        self.status_message = Some(message);
        ok
    }

    /// The `space` staging gesture at the cursor: refused with a footer
    /// message on a read-only target or without a git backend; nothing
    /// happens when no file or no stageable row is under the cursor; a
    /// selection that cannot be staged says why in the footer; otherwise the
    /// resolved gesture (see [`gesture_spec`]) runs in the target's
    /// direction and ends as [`App::finish_stage_gesture`] says. Returns
    /// whether git ran and succeeded, so that the caller reloads the diff.
    pub fn toggle_stage_at_cursor<O: StageOps>(&mut self, ops: Option<&O>, force_whole_file: bool) -> (ok:
        bool)
        requires
            old(self).wf(),
            selection_in_rows(*old(self), force_whole_file),
        ensures
            stage_toggled(*old(self), *final(self), ops is None, force_whole_file, ok),
    {
        let mode = self.target.staging_mode();
        if matches!(mode, StagingMode::ReadOnly) {
            self.set_status_message(String::from_str("read-only diff target"));
            proof {
                reveal_strlit("read-only diff target");
            }
            return false;
        }
        let ops = match ops {
            Some(o) => o,
            None => {
                self.set_status_message(String::from_str("staging unavailable (no git backend)"));
                proof {
                    reveal_strlit("staging unavailable (no git backend)");
                }
                return false;
            },
        };
        let fi = self.view.file_of_cursor();
        if fi >= self.view.files.len() {
            return false;
        }
        let g = match self.stage_gesture_at_cursor(force_whole_file) {
            None => {
                return false;
            },
            Some(Err(m)) => {
                let t = String::from_str(m);
                assert(t@ == m@);
                self.set_status_message(t);
                return false;
            },
            Some(Ok(g)) => g,
        };
        assert(gesture_spec(*old(self), force_whole_file) == Some(Ok::<GestureV, Seq<char>>(gesture_view(g))));
        let staging = matches!(mode, StagingMode::Stage);
        let path = self.view.files[fi].path.clone();
        let result = self.run_gesture(ops, &g, fi, path.as_str(), staging);
        let ghost r = result;
        assert(fi == cursor_file(*old(self)));
        assert(path@ == old(self).view.files@[cursor_file(*old(self))].path@);
        assert(staging == stages(old(self).target));
        let ok = self.finish_stage_gesture(&g, staging, path.as_str(), result);
        assert(final(self).message() == Some(gesture_text(gesture_view(g), staging, path@, r)));
        ok
    }

    /// The `space` gesture in the diff pane: only in Normal or Visual mode
    /// (see [`App::toggle_stage_at_cursor`]); elsewhere nothing happens.
    pub fn toggle_stage<O: StageOps>(&mut self, ops: Option<&O>) -> (ok: bool)
        requires
            old(self).wf(),
            selection_in_rows(*old(self), false),
        ensures
            !(old(self).mode is Normal || old(self).mode is Visual) ==> !ok && *final(self) == *old(
                self,
            ),
            (old(self).mode is Normal || old(self).mode is Visual) ==> stage_toggled(
                *old(self),
                *final(self),
                ops is None,
                false,
                ok,
            ),
    {
        match self.mode {
            Mode::Normal | Mode::Visual { .. } => self.toggle_stage_at_cursor(ops, false),
            _ => false,
        }
    }

    /// The git panel's whole-file `space` gesture: the same checks and
    /// direction as [`App::toggle_stage_at_cursor`], always on the whole
    /// file under the cursor.
    pub fn toggle_stage_whole_file<O: StageOps>(&mut self, ops: Option<&O>) -> (ok: bool)
        requires
            old(self).wf(),
        ensures
            old(self).target.staging_mode_spec() == StagingMode::ReadOnly ==> !ok && final(self).message()
                == Some(read_only_text()),
            old(self).target.staging_mode_spec() != StagingMode::ReadOnly && ops is None ==> !ok
                && final(self).message() == Some(no_backend_staging_text()),
            old(self).target.staging_mode_spec() != StagingMode::ReadOnly && ops is Some
                && cursor_file(*old(self)) < old(self).view.files@.len() ==> exists|
                r: Result<(), GitError>,
            |
                {
                    &&& ok == (r is Ok)
                    &&& final(self).message() == Some(
                        #[trigger] gesture_text(
                            GestureV::WholeFile,
                            stages(old(self).target),
                            old(self).view.files@[cursor_file(*old(self))].path@,
                            r,
                        ),
                    )
                },
    {
        self.toggle_stage_at_cursor(ops, true)
    }

    /// Toggles the staging panel: from Staging it closes back to Normal;
    /// from Normal or Visual it opens, after re-reading the staged list
    /// through `ops` outside a review session (see
    /// [`App::refresh_staged_list`]), with its cursor clamped to the list
    /// and any motion count dropped. Elsewhere nothing happens.
    pub fn toggle_staging_panel<O: StageOps>(&mut self, ops: Option<&O>)
        requires
            old(self).staged_states.wf(),
        ensures
            final(self).staged_states.wf(),
            old(self).mode is Staging ==> *final(self) == (App { mode: Mode::Normal, ..*old(self) }),
            !(old(self).mode is Staging || old(self).mode is Normal || old(self).mode is Visual)
                ==> *final(self) == *old(self),
            (old(self).mode is Normal || old(self).mode is Visual) ==> {
                &&& *final(self) == (App {
                    mode: Mode::Staging,
                    motion_count: None,
                    staged: final(self).staged,
                    staged_states: final(self).staged_states,
                    staging_cursor: final(self).staging_cursor,
                    ..*old(self)
                })
                &&& final(self).staging_cursor == clamp_cursor(
                    old(self).staging_cursor as int,
                    final(self).staged@.len() as int,
                )
                &&& (ops is None || old(self).target is Review) ==> {
                    &&& final(self).staged == old(self).staged
                    &&& final(self).staged_states == old(self).staged_states
                }
            },
    {
        match self.mode {
            Mode::Staging => {
                self.mode = Mode::Normal;
            },
            Mode::Normal | Mode::Visual { .. } => {
                if !self.in_review_session() {
                    self.refresh_staged_list(ops);
                }
                let n = self.staged.len();
                if n == 0 {
                    self.staging_cursor = 0;
                } else if self.staging_cursor > n - 1 {
                    self.staging_cursor = n - 1;
                }
                self.mode = Mode::Staging;
                self.motion_count = None;
            },
            _ => {},
        }
    }
}

} // verus!
