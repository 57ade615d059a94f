//! The flattened row model for the diff pane, built once per selected file.
//!
//! Annotations attached to the file are spliced in as [`Row::Annotation`]
//! rows immediately after the row they anchor to (a line, a hunk header, or
//! the file header), and the anchor row itself is flagged `annotated` so the
//! gutter can show a marker even when the inline annotation text has
//! scrolled out of view (a range annotation marks every covered line).
use vstd::prelude::*;

use crate::annotate::{Annotation, AnnotationStore, Classification, Side, Target};
use crate::decimal::{dec, push_u64};
use crate::diff::{
    DiffLine, FileChangeKind, FileDiff, Hunk, LineOrigin, WordSpan, origins, pair_hunk_lines, partner,
    spans_view, word_diff, word_diff_spec,
};
use crate::text::{lines_of, lines_spec, push_all, push_char, string_of};

verus! {

/// One rendered line of the diff pane's content: both gutter numbers,
/// origin, content, and (for paired lines) word-diff spans.
#[derive(Debug, Clone, PartialEq, Eq)]
pub struct LineRow {
    /// Index into the owning file's hunks this line belongs to.
    pub hunk_index: usize,
    /// 1-based old-side line number, if the line exists there.
    pub old_line: Option<u32>,
    /// 1-based new-side line number, if the line exists there.
    pub new_line: Option<u32>,
    /// Which side of the diff this line belongs to.
    pub origin: LineOrigin,
    /// The line's text.
    pub content: String,
    /// Word-level diff spans against this line's paired counterpart, if any.
    pub word_spans: Option<Vec<WordSpan>>,
    /// Whether the file has no trailing newline after this line.
    pub no_newline: bool,
    /// Whether this line is covered by at least one annotation.
    pub annotated: bool,
}

/// One row of the flattened diff-pane row model.
#[derive(Debug, Clone, PartialEq, Eq)]
pub enum Row {
    /// The selected file's summary line.
    FileHeader {
        /// The current (b-side) path.
        path: String,
        /// The original (a-side) path, for renames.
        old_path: Option<String>,
        /// The kind of change.
        kind: FileChangeKind,
        /// Whether this file has a whole-file annotation.
        annotated: bool,
    },
    /// A `@@ -a,b +c,d @@ section` hunk header.
    HunkHeader {
        /// Index into the owning file's hunks this header starts.
        hunk_index: usize,
        /// The formatted header text.
        text: String,
        /// Whether this hunk has a hunk annotation.
        annotated: bool,
    },
    /// One line of hunk content.
    Line(LineRow),
    /// A binary file's single placeholder row.
    Binary,
    /// A display-only line of an annotation's body; `classification` is
    /// `Some` on the body's first line only.
    Annotation {
        /// The id of the annotation this row belongs to.
        id: usize,
        /// One line of the annotation body.
        text: String,
        /// `Some` only for the first rendered line of the body.
        classification: Option<Classification>,
    },
}

/// A [`LineRow`] as plain values.
pub struct LineRowV {
    pub hunk_index: int,
    pub old_line: Option<u32>,
    pub new_line: Option<u32>,
    pub origin: LineOrigin,
    pub content: Seq<char>,
    pub word_spans: Option<Seq<(Seq<char>, bool)>>,
    pub no_newline: bool,
    pub annotated: bool,
}

/// A [`Row`] as plain values.
pub enum RowV {
    FileHeader { path: Seq<char>, old_path: Option<Seq<char>>, kind: FileChangeKind, annotated: bool },
    HunkHeader { hunk_index: int, text: Seq<char>, annotated: bool },
    Line(LineRowV),
    Binary,
    Annotation { id: int, text: Seq<char>, classification: Option<Classification> },
}

/// The view of an optional string.
pub open spec fn opt_view(o: Option<String>) -> Option<Seq<char>> {
    match o {
        Some(s) => Some(s@),
        None => None,
    }
}

impl View for LineRow {
    type V = LineRowV;

    open spec fn view(&self) -> LineRowV {
        LineRowV {
            hunk_index: self.hunk_index as int,
            old_line: self.old_line,
            new_line: self.new_line,
            origin: self.origin,
            content: self.content@,
            word_spans: match self.word_spans {
                Some(v) => Some(spans_view(v@)),
                None => None,
            },
            no_newline: self.no_newline,
            annotated: self.annotated,
        }
    }
}

impl View for Row {
    type V = RowV;

    open spec fn view(&self) -> RowV {
        match self {
            Row::FileHeader { path, old_path, kind, annotated } => RowV::FileHeader {
                path: path@,
                old_path: opt_view(*old_path),
                kind: *kind,
                annotated: *annotated,
            },
            Row::HunkHeader { hunk_index, text, annotated } => RowV::HunkHeader {
                hunk_index: *hunk_index as int,
                text: text@,
                annotated: *annotated,
            },
            Row::Line(l) => RowV::Line(l@),
            Row::Binary => RowV::Binary,
            Row::Annotation { id, text, classification } => RowV::Annotation {
                id: *id as int,
                text: text@,
                classification: *classification,
            },
        }
    }
}

/// The views of a list of rows.
pub open spec fn rows_view(rows: Seq<Row>) -> Seq<RowV> {
    rows.map_values(|r: Row| r@)
}

impl Row {
    /// Whether the cursor can land on this row: annotation rows are
    /// display-only.
    pub fn is_addressable(&self) -> (b: bool)
        ensures
            b == !(self is Annotation),
    {
        !matches!(self, Row::Annotation { .. })
    }
}

/// The `@@ -a,b +c,d @@[ section]` header text of a hunk.
pub open spec fn hunk_header_spec(h: Hunk) -> Seq<char> {
    let base = "@@ -"@ + dec(h.old_start as nat) + seq![','] + dec(h.old_count as nat) + " +"@ + dec(
        h.new_start as nat,
    ) + seq![','] + dec(h.new_count as nat) + " @@"@;
    match h.section {
        Some(s) => base + seq![' '] + s@,
        None => base,
    }
}

/// Formats a hunk's `@@ -a,b +c,d @@[ section]` header line.
fn format_hunk_header(hunk: &Hunk) -> (text: String)
    ensures
        text@ == hunk_header_spec(*hunk),
{
    let mut text = String::new();
    push_all(&mut text, "@@ -");
    push_u64(&mut text, hunk.old_start as u64);
    push_char(&mut text, ',');
    push_u64(&mut text, hunk.old_count as u64);
    push_all(&mut text, " +");
    push_u64(&mut text, hunk.new_start as u64);
    push_char(&mut text, ',');
    push_u64(&mut text, hunk.new_count as u64);
    push_all(&mut text, " @@");
    if let Some(section) = &hunk.section {
        push_char(&mut text, ' ');
        push_all(&mut text, section.as_str());
    }
    assert(text@ =~= hunk_header_spec(*hunk));
    text
}

/// Whether a hunk's line numbers stay within `u32` (its last line on each
/// side is representable).
pub open spec fn hunk_fits(h: Hunk) -> bool {
    if h.new_count > 0 {
        h.new_start + h.new_count <= u32::MAX
    } else {
        h.old_start + (if h.old_count > 0 { h.old_count - 1 } else { 0 }) <= u32::MAX
    }
}

/// Whether every hunk of `file` fits.
pub open spec fn file_fits(file: FileDiff) -> bool {
    forall|i: int| 0 <= i < file.hunks@.len() ==> hunk_fits(#[trigger] file.hunks@[i])
}

/// A hunk's annotation-anchoring span: its new-side `(start, end)`, or (for
/// a hunk whose new side is empty) its old-side span.
pub open spec fn hunk_span_spec(h: Hunk) -> (u32, u32) {
    if h.new_count > 0 {
        (h.new_start, (h.new_start + h.new_count - 1) as u32)
    } else {
        (h.old_start, (h.old_start + if h.old_count > 0 { h.old_count - 1 } else { 0 }) as u32)
    }
}

/// A hunk's annotation-anchoring span (see [`hunk_span_spec`]).
pub fn hunk_span(hunk: &Hunk) -> (r: (u32, u32))
    requires
        hunk_fits(*hunk),
    ensures
        r == hunk_span_spec(*hunk),
{
    if hunk.new_count > 0 {
        (hunk.new_start, hunk.new_start + hunk.new_count - 1)
    } else {
        (hunk.old_start, hunk.old_start + if hunk.old_count > 0 {
            hunk.old_count - 1
        } else {
            0
        })
    }
}

/// The line number of a diff line on `side`.
pub open spec fn number_on(l: DiffLine, side: Side) -> Option<u32> {
    match side {
        Side::Old => l.old_line,
        Side::New => l.new_line,
    }
}

fn diff_line_number(line: &DiffLine, side: Side) -> (r: Option<u32>)
    ensures
        r == number_on(*line, side),
{
    match side {
        Side::Old => line.old_line,
        Side::New => line.new_line,
    }
}

/// The line number of a line row on `side`.
pub open spec fn row_number_on(l: LineRow, side: Side) -> Option<u32> {
    match side {
        Side::Old => l.old_line,
        Side::New => l.new_line,
    }
}

fn line_row_number(line: &LineRow, side: Side) -> (r: Option<u32>)
    ensures
        r == row_number_on(*line, side),
{
    match side {
        Side::Old => line.old_line,
        Side::New => line.new_line,
    }
}

/// The display rows of one annotation body: its first line tagged with the
/// classification, continuation lines untagged.
pub open spec fn annotation_rows_spec(a: Annotation) -> Seq<RowV> {
    let ls = lines_spec(a.body@);
    Seq::new(
        ls.len(),
        |i: int|
            RowV::Annotation {
                id: a.id as int,
                text: ls[i],
                classification: if i == 0 { Some(a.classification) } else { None },
            },
    )
}

/// Converts one annotation's body into its display rows.
fn annotation_rows(annotation: &Annotation) -> (rows: Vec<Row>)
    ensures
        rows_view(rows@) == annotation_rows_spec(*annotation),
{
    let lines = lines_of(annotation.body.as_str());
    let ghost ls = lines_spec(annotation.body@);
    let mut rows: Vec<Row> = Vec::new();
    let mut i: usize = 0;
    while i < lines.len()
        invariant
            i <= lines@.len() == ls.len(),
            ls == lines_spec(annotation.body@),
            forall|k: int| 0 <= k < lines@.len() ==> #[trigger] lines@[k]@ == ls[k],
            rows_view(rows@) == annotation_rows_spec(*annotation).take(i as int),
        decreases lines.len() - i,
    {
        let text = string_of(lines[i].as_slice());
        let classification = if i == 0 {
            Some(annotation.classification)
        } else {
            None
        };
        let ghost before = rows@;
        rows.push(Row::Annotation { id: annotation.id, text, classification });
        proof {
            assert(rows_view(rows@) =~= rows_view(before) + seq![rows@[i as int]@]);
            assert(annotation_rows_spec(*annotation).take(i as int + 1) =~= annotation_rows_spec(
                *annotation,
            ).take(i as int) + seq![annotation_rows_spec(*annotation)[i as int]]);
        }
        i = i + 1;
    }
    assert(annotation_rows_spec(*annotation).take(i as int) =~= annotation_rows_spec(*annotation));
    rows
}

/// The display rows of the annotations among `items[..n]` satisfying `f`,
/// in order.
pub open spec fn selected_rows(items: Seq<Annotation>, f: spec_fn(Annotation) -> bool, n: int) -> Seq<
    RowV,
>
    decreases n,
{
    if n <= 0 {
        seq![]
    } else {
        selected_rows(items, f, n - 1) + if f(items[n - 1]) {
            annotation_rows_spec(items[n - 1])
        } else {
            seq![]
        }
    }
}

/// Whether annotation `a` targets the whole file `path`.
pub open spec fn file_hit(a: Annotation, path: Seq<char>) -> bool {
    a.target is File && a.target.path_of() == path
}

/// Whether annotation `a` targets the hunk of `path` spanning `span`.
pub open spec fn hunk_hit(a: Annotation, path: Seq<char>, span: (u32, u32)) -> bool {
    a.target.path_of() == path && match a.target {
        Target::Hunk { start, end, .. } => start == span.0 && end == span.1,
        _ => false,
    }
}

/// The first line of `lines` numbered `n` on `side`.
pub open spec fn first_numbered(lines: Seq<DiffLine>, side: Side, n: u32, k: int) -> Option<int>
    decreases k,
{
    if k <= 0 {
        None
    } else {
        match first_numbered(lines, side, n, k - 1) {
            Some(i) => Some(i),
            None => if number_on(lines[k - 1], side) == Some(n) {
                Some(k - 1)
            } else {
                None
            },
        }
    }
}

/// Whether `l`'s number on `side` lies in `start..=end`.
pub open spec fn in_range(l: DiffLine, side: Side, start: u32, end: u32) -> bool {
    match number_on(l, side) {
        Some(n) => start <= n <= end,
        None => false,
    }
}

/// The last line of `lines[..k]` whose number on `side` lies in
/// `start..=end`.
pub open spec fn last_covered(lines: Seq<DiffLine>, side: Side, start: u32, end: u32, k: int) -> Option<
    int,
>
    decreases k,
{
    if k <= 0 {
        None
    } else if in_range(lines[k - 1], side, start, end) {
        Some(k - 1)
    } else {
        last_covered(lines, side, start, end, k - 1)
    }
}

/// The hunk line an annotation's display rows follow: a line target's first
/// matching line, or a range target's last covered line.
pub open spec fn anchor_line(a: Annotation, path: Seq<char>, lines: Seq<DiffLine>) -> Option<int> {
    if a.target.path_of() != path {
        None
    } else {
        match a.target {
            Target::Line { line, side, .. } => first_numbered(lines, side, line, lines.len() as int),
            Target::Range { start, end, side, .. } => last_covered(
                lines,
                side,
                start,
                end,
                lines.len() as int,
            ),
            _ => None,
        }
    }
}

/// Whether annotation `a` marks hunk line `j` (a line target on it, or a
/// range target covering it).
pub open spec fn marks_line(a: Annotation, path: Seq<char>, lines: Seq<DiffLine>, j: int) -> bool {
    a.target.path_of() == path && match a.target {
        Target::Line { line, side, .. } => first_numbered(lines, side, line, lines.len() as int) == Some(
            j,
        ),
        Target::Range { start, end, side, .. } => in_range(lines[j], side, start, end),
        _ => false,
    }
}

/// The word-diff spans of hunk line `j` against its partner, if paired.
pub open spec fn line_spans(lines: Seq<DiffLine>, j: int) -> Option<Seq<(Seq<char>, bool)>> {
    match partner(origins(lines), j) {
        Some(p) => if lines[j].origin == LineOrigin::Removed {
            Some(word_diff_spec(lines[j].content@, lines[p].content@).0)
        } else {
            Some(word_diff_spec(lines[p].content@, lines[j].content@).1)
        },
        None => None,
    }
}

/// The row of hunk `i`'s line `j`.
pub open spec fn line_row_spec(file: FileDiff, items: Seq<Annotation>, i: int, j: int) -> RowV {
    let lines = file.hunks@[i].lines@;
    let l = lines[j];
    RowV::Line(
        LineRowV {
            hunk_index: i,
            old_line: l.old_line,
            new_line: l.new_line,
            origin: l.origin,
            content: l.content@,
            word_spans: line_spans(lines, j),
            no_newline: l.no_newline,
            annotated: exists|k: int|
                0 <= k < items.len() && marks_line(#[trigger] items[k], file.path@, lines, j),
        },
    )
}

/// Hunk `i`'s first `n` lines with the annotation rows anchored after each.
pub open spec fn line_rows_spec(file: FileDiff, items: Seq<Annotation>, i: int, n: int) -> Seq<RowV>
    decreases n,
{
    if n <= 0 {
        seq![]
    } else {
        let lines = file.hunks@[i].lines@;
        let path = file.path@;
        line_rows_spec(file, items, i, n - 1) + seq![line_row_spec(file, items, i, n - 1)]
            + selected_rows(
            items,
            |a: Annotation| anchor_line(a, path, lines) == Some(n - 1),
            items.len() as int,
        )
    }
}

/// Hunk `i`'s rows: its header, the hunk's annotation rows, then its lines.
pub open spec fn hunk_rows_spec(file: FileDiff, items: Seq<Annotation>, i: int) -> Seq<RowV> {
    let h = file.hunks@[i];
    let path = file.path@;
    let span = hunk_span_spec(h);
    seq![
        RowV::HunkHeader {
            hunk_index: i,
            text: hunk_header_spec(h),
            annotated: exists|k: int| 0 <= k < items.len() && hunk_hit(#[trigger] items[k], path, span),
        },
    ] + selected_rows(items, |a: Annotation| hunk_hit(a, path, span), items.len() as int)
        + line_rows_spec(file, items, i, h.lines@.len() as int)
}

/// The rows of the first `n` hunks.
pub open spec fn hunks_rows_spec(file: FileDiff, items: Seq<Annotation>, n: int) -> Seq<RowV>
    decreases n,
{
    if n <= 0 {
        seq![]
    } else {
        hunks_rows_spec(file, items, n - 1) + hunk_rows_spec(file, items, n - 1)
    }
}

/// The whole row model of `file` with `items` spliced in: the file header
/// and its whole-file annotation rows, then a binary placeholder or each
/// hunk's rows.
pub open spec fn build_rows_spec(file: FileDiff, items: Seq<Annotation>) -> Seq<RowV> {
    let path = file.path@;
    seq![
        RowV::FileHeader {
            path: path,
            old_path: opt_view(file.old_path),
            kind: file.kind,
            annotated: exists|k: int| 0 <= k < items.len() && file_hit(#[trigger] items[k], path),
        },
    ] + selected_rows(items, |a: Annotation| file_hit(a, path), items.len() as int) + if file.is_binary {
        seq![RowV::Binary]
    } else {
        hunks_rows_spec(file, items, file.hunks@.len() as int)
    }
}

/// Row `r` with its annotation mark cleared.
pub open spec fn unmarked(r: RowV) -> RowV {
    match r {
        RowV::FileHeader { path, old_path, kind, .. } => RowV::FileHeader { path, old_path, kind, annotated: false },
        RowV::HunkHeader { hunk_index, text, .. } => RowV::HunkHeader { hunk_index, text, annotated: false },
        RowV::Line(l) => RowV::Line(LineRowV { annotated: false, ..l }),
        r => r,
    }
}

/// `rows` with every annotation display row taken out and every
/// annotation mark cleared.
pub open spec fn without_annotations(rows: Seq<RowV>) -> Seq<RowV>
    decreases rows.len(),
{
    if rows.len() == 0 {
        seq![]
    } else if rows.last() is Annotation {
        without_annotations(rows.drop_last())
    } else {
        without_annotations(rows.drop_last()).push(unmarked(rows.last()))
    }
}

proof fn lemma_without_concat(a: Seq<RowV>, b: Seq<RowV>)
    ensures
        without_annotations(a + b) == without_annotations(a) + without_annotations(b),
    decreases b.len(),
{
    if b.len() == 0 {
        assert(a + b =~= a);
        assert(without_annotations(a) + without_annotations(b) =~= without_annotations(a));
    } else {
        assert((a + b).drop_last() =~= a + b.drop_last());
        assert((a + b).last() == b.last());
        lemma_without_concat(a, b.drop_last());
        if b.last() is Annotation {
        } else {
            assert(without_annotations(a + b) =~= without_annotations(a) + without_annotations(b));
        }
    }
}

proof fn lemma_annotation_rows_vanish(a: Annotation, n: int)
    requires
        0 <= n <= annotation_rows_spec(a).len(),
    ensures
        without_annotations(annotation_rows_spec(a).take(n)) == Seq::<RowV>::empty(),
    decreases n,
{
    if n > 0 {
        assert(annotation_rows_spec(a).take(n).drop_last() =~= annotation_rows_spec(a).take(n - 1));
        lemma_annotation_rows_vanish(a, n - 1);
    }
}

proof fn lemma_selected_rows_vanish(items: Seq<Annotation>, f: spec_fn(Annotation) -> bool, n: int)
    ensures
        without_annotations(selected_rows(items, f, n)) == Seq::<RowV>::empty(),
    decreases n,
{
    if n > 0 {
        lemma_selected_rows_vanish(items, f, n - 1);
        let more = if f(items[n - 1]) {
            annotation_rows_spec(items[n - 1])
        } else {
            seq![]
        };
        lemma_without_concat(selected_rows(items, f, n - 1), more);
        if f(items[n - 1]) {
            let rs = annotation_rows_spec(items[n - 1]);
            lemma_annotation_rows_vanish(items[n - 1], rs.len() as int);
            assert(rs.take(rs.len() as int) =~= rs);
        }
    }
}

proof fn lemma_line_rows_plain(file: FileDiff, items: Seq<Annotation>, i: int, n: int)
    ensures
        without_annotations(line_rows_spec(file, items, i, n)) == line_rows_spec(file, seq![], i, n),
    decreases n,
{
    if n > 0 {
        lemma_line_rows_plain(file, items, i, n - 1);
        let lines = file.hunks@[i].lines@;
        let path = file.path@;
        let f = |a: Annotation| anchor_line(a, path, lines) == Some(n - 1);
        let head = line_rows_spec(file, items, i, n - 1) + seq![line_row_spec(file, items, i, n - 1)];
        lemma_without_concat(head, selected_rows(items, f, items.len() as int));
        lemma_selected_rows_vanish(items, f, items.len() as int);
        lemma_without_concat(line_rows_spec(file, items, i, n - 1), seq![line_row_spec(file, items, i, n - 1)]);
        let single = seq![line_row_spec(file, items, i, n - 1)];
        assert(single.drop_last() =~= Seq::<RowV>::empty());
        let e0 = Seq::<Annotation>::empty();
        assert(unmarked(line_row_spec(file, items, i, n - 1)) == line_row_spec(file, e0, i, n - 1));
        assert(without_annotations(single.drop_last()) =~= Seq::<RowV>::empty());
        assert(without_annotations(single) =~= seq![line_row_spec(file, e0, i, n - 1)]);
        let empty_items = Seq::<Annotation>::empty();
        assert(selected_rows(empty_items, f, 0) =~= Seq::<RowV>::empty());
        assert(line_rows_spec(file, seq![], i, n) =~= line_rows_spec(file, seq![], i, n - 1) + seq![
            line_row_spec(file, seq![], i, n - 1),
        ]);
        assert(without_annotations(line_rows_spec(file, items, i, n)) =~= line_rows_spec(file, seq![], i, n));
    }
}

proof fn lemma_hunks_rows_plain(file: FileDiff, items: Seq<Annotation>, n: int)
    ensures
        without_annotations(hunks_rows_spec(file, items, n)) == hunks_rows_spec(file, seq![], n),
    decreases n,
{
    if n > 0 {
        lemma_hunks_rows_plain(file, items, n - 1);
        let i = n - 1;
        let h = file.hunks@[i];
        let path = file.path@;
        let span = hunk_span_spec(h);
        let g = |a: Annotation| hunk_hit(a, path, span);
        let header = seq![
            RowV::HunkHeader {
                hunk_index: i,
                text: hunk_header_spec(h),
                annotated: exists|k: int| 0 <= k < items.len() && hunk_hit(#[trigger] items[k], path, span),
            },
        ];
        let sel = selected_rows(items, g, items.len() as int);
        let lr = line_rows_spec(file, items, i, h.lines@.len() as int);
        assert(hunk_rows_spec(file, items, i) == header + sel + lr);
        lemma_without_concat(header + sel, lr);
        lemma_without_concat(header, sel);
        lemma_selected_rows_vanish(items, g, items.len() as int);
        lemma_line_rows_plain(file, items, i, h.lines@.len() as int);
        assert(header.drop_last() =~= Seq::<RowV>::empty());
        let e0 = Seq::<Annotation>::empty();
        assert(selected_rows(e0, g, 0) =~= Seq::<RowV>::empty());
        let header0 = seq![RowV::HunkHeader { hunk_index: i, text: hunk_header_spec(h), annotated: false }];
        assert(without_annotations(header.drop_last()) =~= Seq::<RowV>::empty());
        assert(without_annotations(header) =~= header0);
        assert(hunk_rows_spec(file, e0, i) =~= header0 + selected_rows(e0, g, 0) + line_rows_spec(
            file,
            e0,
            i,
            h.lines@.len() as int,
        ));
        assert(without_annotations(hunk_rows_spec(file, items, i)) =~= hunk_rows_spec(file, e0, i));
        lemma_without_concat(hunks_rows_spec(file, items, n - 1), hunk_rows_spec(file, items, i));
    }
}

/// Annotations only add to the rows: taking their display rows out and
/// clearing the marks on covered rows gives exactly the rows the file has
/// with no annotations, none dropped, reordered or altered.
pub proof fn lemma_annotations_only_add_rows(file: FileDiff, items: Seq<Annotation>)
    ensures
        without_annotations(build_rows_spec(file, items)) == build_rows_spec(file, seq![]),
{
    let path = file.path@;
    let fh = |a: Annotation| file_hit(a, path);
    let header = seq![
        RowV::FileHeader {
            path: path,
            old_path: opt_view(file.old_path),
            kind: file.kind,
            annotated: exists|k: int| 0 <= k < items.len() && file_hit(#[trigger] items[k], path),
        },
    ];
    let sel = selected_rows(items, fh, items.len() as int);
    let body = if file.is_binary {
        seq![RowV::Binary]
    } else {
        hunks_rows_spec(file, items, file.hunks@.len() as int)
    };
    assert(build_rows_spec(file, items) == header + sel + body);
    lemma_without_concat(header + sel, body);
    lemma_without_concat(header, sel);
    lemma_selected_rows_vanish(items, fh, items.len() as int);
    assert(header.drop_last() =~= Seq::<RowV>::empty());
    let e0 = Seq::<Annotation>::empty();
    assert(selected_rows(e0, fh, 0) =~= Seq::<RowV>::empty());
    let header0 = seq![
        RowV::FileHeader { path: path, old_path: opt_view(file.old_path), kind: file.kind, annotated: false },
    ];
    assert(without_annotations(header.drop_last()) =~= Seq::<RowV>::empty());
    assert(without_annotations(header) =~= header0);
    let body0 = if file.is_binary {
        seq![RowV::Binary]
    } else {
        hunks_rows_spec(file, e0, file.hunks@.len() as int)
    };
    assert(build_rows_spec(file, e0) =~= header0 + selected_rows(e0, fh, 0) + body0);
    if file.is_binary {
        assert(seq![RowV::Binary].drop_last() =~= Seq::<RowV>::empty());
        assert(without_annotations(seq![RowV::Binary].drop_last()) =~= Seq::<RowV>::empty());
        assert(without_annotations(seq![RowV::Binary]) =~= seq![RowV::Binary]);
    } else {
        lemma_hunks_rows_plain(file, items, file.hunks@.len() as int);
    }
    assert(without_annotations(build_rows_spec(file, items)) =~= build_rows_spec(file, e0));
}

proof fn lemma_selected_prefix(items: Seq<Annotation>, a: Annotation, f: spec_fn(Annotation) -> bool, n: int)
    requires
        n <= items.len(),
    ensures
        selected_rows(items.push(a), f, n) == selected_rows(items, f, n),
    decreases n,
{
    if n > 0 {
        lemma_selected_prefix(items, a, f, n - 1);
        assert(items.push(a)[n - 1] == items[n - 1]);
    }
}

proof fn lemma_selected_skips(items: Seq<Annotation>, a: Annotation, f: spec_fn(Annotation) -> bool)
    requires
        !f(a),
    ensures
        selected_rows(items.push(a), f, items.push(a).len() as int) == selected_rows(items, f, items.len() as int),
{
    lemma_selected_prefix(items, a, f, items.len() as int);
    assert(items.push(a)[items.len() as int] == a);
    assert(selected_rows(items.push(a), f, items.push(a).len() as int) =~= selected_rows(items, f, items.len() as int));
}

proof fn lemma_other_path_line_rows(file: FileDiff, items: Seq<Annotation>, a: Annotation, i: int, n: int)
    requires
        a.target.path_of() != file.path@,
    ensures
        line_rows_spec(file, items.push(a), i, n) == line_rows_spec(file, items, i, n),
    decreases n,
{
    if n > 0 {
        lemma_other_path_line_rows(file, items, a, i, n - 1);
        let lines = file.hunks@[i].lines@;
        let path = file.path@;
        let f = |x: Annotation| anchor_line(x, path, lines) == Some(n - 1);
        lemma_selected_skips(items, a, f);
        let ext = items.push(a);
        assert((exists|k: int| 0 <= k < ext.len() && marks_line(#[trigger] ext[k], path, lines, n - 1)) == (
        exists|k: int| 0 <= k < items.len() && marks_line(#[trigger] items[k], path, lines, n - 1))) by {
            if exists|k: int| 0 <= k < ext.len() && marks_line(#[trigger] ext[k], path, lines, n - 1) {
                let k = choose|k: int| 0 <= k < ext.len() && marks_line(#[trigger] ext[k], path, lines, n - 1);
                assert(k < items.len());
                assert(ext[k] == items[k]);
            }
            if exists|k: int| 0 <= k < items.len() && marks_line(#[trigger] items[k], path, lines, n - 1) {
                let k = choose|k: int| 0 <= k < items.len() && marks_line(#[trigger] items[k], path, lines, n - 1);
                assert(ext[k] == items[k]);
            }
        }
        assert(line_row_spec(file, ext, i, n - 1) == line_row_spec(file, items, i, n - 1));
    }
}

proof fn lemma_other_path_hunks_rows(file: FileDiff, items: Seq<Annotation>, a: Annotation, n: int)
    requires
        a.target.path_of() != file.path@,
    ensures
        hunks_rows_spec(file, items.push(a), n) == hunks_rows_spec(file, items, n),
    decreases n,
{
    if n > 0 {
        lemma_other_path_hunks_rows(file, items, a, n - 1);
        let i = n - 1;
        let h = file.hunks@[i];
        let path = file.path@;
        let span = hunk_span_spec(h);
        let g = |x: Annotation| hunk_hit(x, path, span);
        lemma_selected_skips(items, a, g);
        lemma_other_path_line_rows(file, items, a, i, h.lines@.len() as int);
        let ext = items.push(a);
        assert((exists|k: int| 0 <= k < ext.len() && hunk_hit(#[trigger] ext[k], path, span)) == (exists|k: int|
            0 <= k < items.len() && hunk_hit(#[trigger] items[k], path, span))) by {
            if exists|k: int| 0 <= k < ext.len() && hunk_hit(#[trigger] ext[k], path, span) {
                let k = choose|k: int| 0 <= k < ext.len() && hunk_hit(#[trigger] ext[k], path, span);
                assert(k < items.len());
                assert(ext[k] == items[k]);
            }
            if exists|k: int| 0 <= k < items.len() && hunk_hit(#[trigger] items[k], path, span) {
                let k = choose|k: int| 0 <= k < items.len() && hunk_hit(#[trigger] items[k], path, span);
                assert(ext[k] == items[k]);
            }
        }
        assert(hunk_rows_spec(file, ext, i) == hunk_rows_spec(file, items, i));
    }
}

/// A file's rows depend only on the annotations of that file: adding an
/// annotation that targets another path (a whole file, a hunk, a line or a
/// range there) leaves every row, mark and spliced note unchanged.
pub proof fn lemma_other_files_annotations_leave_rows(file: FileDiff, items: Seq<Annotation>, a: Annotation)
    requires
        a.target.path_of() != file.path@,
    ensures
        build_rows_spec(file, items.push(a)) == build_rows_spec(file, items),
{
    let path = file.path@;
    let fh = |x: Annotation| file_hit(x, path);
    lemma_selected_skips(items, a, fh);
    lemma_other_path_hunks_rows(file, items, a, file.hunks@.len() as int);
    let ext = items.push(a);
    assert((exists|k: int| 0 <= k < ext.len() && file_hit(#[trigger] ext[k], path)) == (exists|k: int|
        0 <= k < items.len() && file_hit(#[trigger] items[k], path))) by {
        if exists|k: int| 0 <= k < ext.len() && file_hit(#[trigger] ext[k], path) {
            let k = choose|k: int| 0 <= k < ext.len() && file_hit(#[trigger] ext[k], path);
            assert(k < items.len());
            assert(ext[k] == items[k]);
        }
        if exists|k: int| 0 <= k < items.len() && file_hit(#[trigger] items[k], path) {
            let k = choose|k: int| 0 <= k < items.len() && file_hit(#[trigger] items[k], path);
            assert(ext[k] == items[k]);
        }
    }
}

fn same_text(a: &String, b: &String) -> (r: bool)
    ensures
        r == (a@ == b@),
{
    *a == *b
}

fn clone_opt(o: &Option<String>) -> (r: Option<String>)
    ensures
        opt_view(r) == opt_view(*o),
{
    match o {
        Some(s) => Some(s.clone()),
        None => None,
    }
}

/// Appends the rows of every whole-file annotation of `path` in `items`,
/// reporting whether there was any.
fn push_file_annotation_rows(rows: &mut Vec<Row>, items: &Vec<Annotation>, path: &String) -> (any:
    bool)
    ensures
        rows_view(final(rows)@) == rows_view(old(rows)@) + selected_rows(
            items@,
            |a: Annotation| file_hit(a, path@),
            items@.len() as int,
        ),
        any == exists|k: int| 0 <= k < items@.len() && file_hit(#[trigger] items@[k], path@),
{
    let ghost start = rows_view(rows@);
    let ghost f = |a: Annotation| file_hit(a, path@);
    let mut any = false;
    let mut k: usize = 0;
    while k < items.len()
        invariant
            k <= items@.len(),
            f == (|a: Annotation| file_hit(a, path@)),
            rows_view(rows@) == start + selected_rows(items@, f, k as int),
            any == exists|q: int| 0 <= q < k && file_hit(#[trigger] items@[q], path@),
        decreases items.len() - k,
    {
        let a = &items[k];
        let hit = match &a.target {
            Target::File { path: p } => same_text(p, path),
            _ => false,
        };
        assert(hit == f(items@[k as int]));
        if hit {
            let more = annotation_rows(a);
            let ghost before = rows_view(rows@);
            extend_rows(rows, more);
            any = true;
        }
        proof {
            assert(selected_rows(items@, f, k as int + 1) == selected_rows(items@, f, k as int) + if f(
                items@[k as int],
            ) {
                annotation_rows_spec(items@[k as int])
            } else {
                seq![]
            });
            if !hit {
                assert(rows_view(rows@) =~= start + selected_rows(items@, f, k as int + 1));
            }
        }
        k = k + 1;
    }
    any
}

/// Appends `more` to `rows`.
fn extend_rows(rows: &mut Vec<Row>, more: Vec<Row>)
    ensures
        rows_view(final(rows)@) == rows_view(old(rows)@) + rows_view(more@),
{
    let mut more = more;
    let ghost a = rows@;
    let ghost b = more@;
    rows.append(&mut more);
    assert(rows@ == a + b);
    assert(rows_view(rows@) =~= rows_view(a) + rows_view(b));
}

/// Appends the rows of every annotation of `path` in `items` targeting the
/// hunk spanning `span`, reporting whether there was any.
fn push_hunk_annotation_rows(
    rows: &mut Vec<Row>,
    items: &Vec<Annotation>,
    path: &String,
    span: (u32, u32),
) -> (any: bool)
    ensures
        rows_view(final(rows)@) == rows_view(old(rows)@) + selected_rows(
            items@,
            |a: Annotation| hunk_hit(a, path@, span),
            items@.len() as int,
        ),
        any == exists|k: int| 0 <= k < items@.len() && hunk_hit(#[trigger] items@[k], path@, span),
{
    let ghost start = rows_view(rows@);
    let ghost f = |a: Annotation| hunk_hit(a, path@, span);
    let mut any = false;
    let mut k: usize = 0;
    while k < items.len()
        invariant
            k <= items@.len(),
            f == (|a: Annotation| hunk_hit(a, path@, span)),
            rows_view(rows@) == start + selected_rows(items@, f, k as int),
            any == exists|q: int| 0 <= q < k && hunk_hit(#[trigger] items@[q], path@, span),
        decreases items.len() - k,
    {
        let a = &items[k];
        let hit = match &a.target {
            Target::Hunk { path: p, start, end, .. } => *start == span.0 && *end == span.1 && same_text(
                p,
                path,
            ),
            _ => false,
        };
        assert(hit == f(items@[k as int]));
        if hit {
            let more = annotation_rows(a);
            extend_rows(rows, more);
            any = true;
        }
        proof {
            if !hit {
                assert(rows_view(rows@) =~= start + selected_rows(items@, f, k as int + 1));
            }
        }
        k = k + 1;
    }
    any
}

proof fn lemma_anchor_range(a: Annotation, path: Seq<char>, lines: Seq<DiffLine>)
    ensures
        anchor_line(a, path, lines) matches Some(i) ==> 0 <= i < lines.len(),
{
    if a.target.path_of() == path {
        match a.target {
            Target::Line { line, side, .. } => lemma_first_numbered_range(lines, side, line, lines.len() as int),
            Target::Range { start, end, side, .. } => lemma_last_covered_range(lines, side, start, end, lines.len() as int),
            _ => {},
        }
    }
}

proof fn lemma_first_numbered_range(lines: Seq<DiffLine>, side: Side, n: u32, k: int)
    ensures
        first_numbered(lines, side, n, k) matches Some(i) ==> 0 <= i < k,
    decreases k,
{
    if k > 0 {
        lemma_first_numbered_range(lines, side, n, k - 1);
    }
}

proof fn lemma_last_covered_range(lines: Seq<DiffLine>, side: Side, start: u32, end: u32, k: int)
    ensures
        last_covered(lines, side, start, end, k) matches Some(i) ==> 0 <= i < k,
    decreases k,
{
    if k > 0 {
        lemma_last_covered_range(lines, side, start, end, k - 1);
    }
}

/// The first line of `lines` numbered `n` on `side`.
fn first_numbered_exec(lines: &Vec<DiffLine>, side: Side, n: u32) -> (r: Option<usize>)
    ensures
        match first_numbered(lines@, side, n, lines@.len() as int) {
            Some(i) => r == Some(i as usize),
            None => r is None,
        },
        r matches Some(i) ==> i < lines@.len(),
{
    let mut found: Option<usize> = None;
    let mut i: usize = 0;
    while i < lines.len()
        invariant
            i <= lines@.len(),
            match first_numbered(lines@, side, n, i as int) {
                Some(x) => found == Some(x as usize) && 0 <= x < i,
                None => found is None,
            },
        decreases lines.len() - i,
    {
        if found.is_none() && diff_line_number(&lines[i], side) == Some(n) {
            found = Some(i);
        }
        i = i + 1;
    }
    found
}

/// The last line of `lines` whose number on `side` lies in `start..=end`.
fn last_covered_exec(lines: &Vec<DiffLine>, side: Side, start: u32, end: u32) -> (r: Option<usize>)
    ensures
        match last_covered(lines@, side, start, end, lines@.len() as int) {
            Some(i) => r == Some(i as usize),
            None => r is None,
        },
        r matches Some(i) ==> i < lines@.len(),
{
    let mut last: Option<usize> = None;
    let mut i: usize = 0;
    while i < lines.len()
        invariant
            i <= lines@.len(),
            match last_covered(lines@, side, start, end, i as int) {
                Some(x) => last == Some(x as usize) && 0 <= x < i,
                None => last is None,
            },
        decreases lines.len() - i,
    {
        let covered = match diff_line_number(&lines[i], side) {
            Some(n) => start <= n && n <= end,
            None => false,
        };
        if covered {
            last = Some(i);
        }
        i = i + 1;
    }
    last
}

/// Each annotation's anchor line within `hunk` (see [`anchor_line`]).
fn anchors_in_hunk(items: &Vec<Annotation>, path: &String, hunk: &Hunk) -> (anchors: Vec<Option<usize>>)
    ensures
        anchors@.len() == items@.len(),
        forall|k: int|
            0 <= k < items@.len() ==> match anchor_line(items@[k], path@, hunk.lines@) {
                Some(i) => #[trigger] anchors@[k] == Some(i as usize),
                None => anchors@[k] is None,
            },
        forall|k: int| 0 <= k < items@.len() ==> (#[trigger] anchors@[k] matches Some(i) ==> i < hunk.lines@.len()),
{
    let mut anchors: Vec<Option<usize>> = Vec::new();
    let mut k: usize = 0;
    while k < items.len()
        invariant
            k <= items@.len(),
            anchors@.len() == k,
            forall|q: int|
                0 <= q < k ==> match anchor_line(items@[q], path@, hunk.lines@) {
                    Some(i) => #[trigger] anchors@[q] == Some(i as usize),
                    None => anchors@[q] is None,
                },
            forall|q: int| 0 <= q < k ==> (#[trigger] anchors@[q] matches Some(i) ==> i < hunk.lines@.len()),
        decreases items.len() - k,
    {
        let a = &items[k];
        let same = same_text(a.target.path(), path);
        let anchor = if !same {
            None
        } else {
            match &a.target {
                Target::Line { line, side, .. } => first_numbered_exec(&hunk.lines, *side, *line),
                Target::Range { start, end, side, .. } => last_covered_exec(
                    &hunk.lines,
                    *side,
                    *start,
                    *end,
                ),
                _ => None,
            }
        };
        anchors.push(anchor);
        k = k + 1;
    }
    anchors
}

/// Whether some annotation marks hunk line `j`.
fn line_marked(items: &Vec<Annotation>, anchors: &Vec<Option<usize>>, path: &String, hunk: &Hunk, j: usize) -> (b: bool)
    requires
        j < hunk.lines@.len(),
        anchors@.len() == items@.len(),
        forall|k: int|
            0 <= k < items@.len() ==> match anchor_line(items@[k], path@, hunk.lines@) {
                Some(i) => #[trigger] anchors@[k] == Some(i as usize),
                None => anchors@[k] is None,
            },
    ensures
        b == exists|k: int| 0 <= k < items@.len() && marks_line(#[trigger] items@[k], path@, hunk.lines@, j as int),
{
    let n_lines = hunk.lines.len();
    let mut k: usize = 0;
    while k < items.len()
        invariant
            k <= items@.len() == anchors@.len(),
            j < hunk.lines@.len() == n_lines,
            forall|q: int|
                0 <= q < items@.len() ==> match anchor_line(items@[q], path@, hunk.lines@) {
                    Some(i) => #[trigger] anchors@[q] == Some(i as usize),
                    None => anchors@[q] is None,
                },
            forall|q: int| 0 <= q < k ==> !marks_line(#[trigger] items@[q], path@, hunk.lines@, j as int),
        decreases items.len() - k,
    {
        let a = &items[k];
        let hit = match &a.target {
            Target::Line { .. } => anchors[k] == Some(j),
            Target::Range { start, end, side, .. } => same_text(a.target.path(), path) && match diff_line_number(
                &hunk.lines[j],
                *side,
            ) {
                Some(n) => *start <= n && n <= *end,
                None => false,
            },
            _ => false,
        };
        proof {
            lemma_anchor_range(items@[k as int], path@, hunk.lines@);
            match items@[k as int].target {
                Target::Line { line, side, .. } => {
                    let an = anchors@[k as int];
                    if items@[k as int].target.path_of() == path@ {
                        assert(anchor_line(items@[k as int], path@, hunk.lines@) == first_numbered(
                            hunk.lines@,
                            side,
                            line,
                            hunk.lines@.len() as int,
                        ));
                    } else {
                        assert(anchor_line(items@[k as int], path@, hunk.lines@) is None);
                        assert(an is None);
                    }
                    assert(hit == (an == Some(j)));
                    if items@[k as int].target.path_of() == path@ {
                        match first_numbered(hunk.lines@, side, line, hunk.lines@.len() as int) {
                            Some(i) => {
                                assert(an == Some(i as usize));
                                assert(0 <= i);
                                assert((i as usize == j) == (i == j as int));
                            },
                            None => {},
                        }
                    }
                    assert(hit == marks_line(items@[k as int], path@, hunk.lines@, j as int));
                },
                Target::Range { .. } => {
                    assert(hit == marks_line(items@[k as int], path@, hunk.lines@, j as int));
                },
                _ => {},
            }
            assert(hit == marks_line(items@[k as int], path@, hunk.lines@, j as int));
        }
        if hit {
            return true;
        }
        k = k + 1;
    }
    false
}

/// Appends the display rows of every annotation anchored after hunk line
/// `j`, in order.
fn push_anchored_rows(
    rows: &mut Vec<Row>,
    items: &Vec<Annotation>,
    anchors: &Vec<Option<usize>>,
    path: &String,
    hunk: &Hunk,
    j: usize,
)
    requires
        anchors@.len() == items@.len(),
        forall|k: int|
            0 <= k < items@.len() ==> match anchor_line(items@[k], path@, hunk.lines@) {
                Some(i) => #[trigger] anchors@[k] == Some(i as usize),
                None => anchors@[k] is None,
            },
        j < hunk.lines@.len(),
    ensures
        rows_view(final(rows)@) == rows_view(old(rows)@) + selected_rows(
            items@,
            |a: Annotation| anchor_line(a, path@, hunk.lines@) == Some(j as int),
            items@.len() as int,
        ),
{
    let ghost start = rows_view(rows@);
    let ghost f = |a: Annotation| anchor_line(a, path@, hunk.lines@) == Some(j as int);
    let n_lines = hunk.lines.len();
    let mut k: usize = 0;
    while k < items.len()
        invariant
            k <= items@.len() == anchors@.len(),
            j < hunk.lines@.len() == n_lines,
            f == (|a: Annotation| anchor_line(a, path@, hunk.lines@) == Some(j as int)),
            forall|q: int|
                0 <= q < items@.len() ==> match anchor_line(items@[q], path@, hunk.lines@) {
                    Some(i) => #[trigger] anchors@[q] == Some(i as usize),
                    None => anchors@[q] is None,
                },
            rows_view(rows@) == start + selected_rows(items@, f, k as int),
        decreases items.len() - k,
    {
        let hit = anchors[k] == Some(j);
        proof {
            lemma_anchor_range(items@[k as int], path@, hunk.lines@);
            assert(hit == f(items@[k as int]));
        }
        if hit {
            let more = annotation_rows(&items[k]);
            extend_rows(rows, more);
        } else {
            assert(rows_view(rows@) =~= start + selected_rows(items@, f, k as int + 1));
        }
        k = k + 1;
    }
}

/// The word-diff spans of hunk line `j` against its partner, if paired.
fn spans_for_line(hunk: &Hunk, pairs: &Vec<Option<usize>>, j: usize) -> (r: Option<Vec<WordSpan>>)
    requires
        j < hunk.lines@.len(),
        pairs@.len() == hunk.lines@.len(),
        forall|q: int|
            0 <= q < pairs@.len() ==> #[trigger] pairs@[q] == match partner(origins(hunk.lines@), q) {
                Some(p) => Some(p as usize),
                None => None::<usize>,
            },
    ensures
        match r {
            Some(v) => line_spans(hunk.lines@, j as int) == Some(spans_view(v@)),
            None => line_spans(hunk.lines@, j as int) is None,
        },
{
    let n_lines = hunk.lines.len();
    proof {
        crate::diff::lemma_partner_range(origins(hunk.lines@), j as int);
    }
    match pairs[j] {
        Some(p) => {
            let line = &hunk.lines[j];
            let other = &hunk.lines[p];
            if matches!(line.origin, LineOrigin::Removed) {
                let (old_spans, _) = word_diff(line.content.as_str(), other.content.as_str());
                Some(old_spans)
            } else {
                let (_, new_spans) = word_diff(other.content.as_str(), line.content.as_str());
                Some(new_spans)
            }
        },
        None => None,
    }
}

/// Appends hunk `i`'s rows (see [`hunk_rows_spec`]).
fn push_hunk_rows(rows: &mut Vec<Row>, file: &FileDiff, items: &Vec<Annotation>, i: usize)
    requires
        i < file.hunks@.len(),
        file_fits(*file),
    ensures
        rows_view(final(rows)@) == rows_view(old(rows)@) + hunk_rows_spec(*file, items@, i as int),
{
    let ghost start = rows_view(rows@);
    let hunk = &file.hunks[i];
    assert(hunk_fits(*hunk));
    let span = hunk_span(hunk);
    let mut header_notes: Vec<Row> = Vec::new();
    let any = push_hunk_annotation_rows(&mut header_notes, items, &file.path, span);
    rows.push(Row::HunkHeader { hunk_index: i, text: format_hunk_header(hunk), annotated: any });
    extend_rows(rows, header_notes);
    let ghost after_header = rows_view(rows@);
    let anchors = anchors_in_hunk(items, &file.path, hunk);
    let pairs = pair_hunk_lines(hunk);
    let ghost lines = hunk.lines@;
    let mut j: usize = 0;
    while j < hunk.lines.len()
        invariant
            j <= lines.len(),
            lines == hunk.lines@,
            hunk == &file.hunks@[i as int],
            anchors@.len() == items@.len(),
            forall|k: int|
                0 <= k < items@.len() ==> match anchor_line(items@[k], file.path@, hunk.lines@) {
                    Some(x) => #[trigger] anchors@[k] == Some(x as usize),
                    None => anchors@[k] is None,
                },
            pairs@.len() == hunk.lines@.len(),
            forall|q: int|
                0 <= q < pairs@.len() ==> #[trigger] pairs@[q] == match partner(origins(hunk.lines@), q) {
                    Some(p) => Some(p as usize),
                    None => None::<usize>,
                },
            rows_view(rows@) == after_header + line_rows_spec(*file, items@, i as int, j as int),
        decreases lines.len() - j,
    {
        let line = &hunk.lines[j];
        let word_spans = spans_for_line(hunk, &pairs, j);
        let annotated = line_marked(items, &anchors, &file.path, hunk, j);
        let ghost before = rows_view(rows@);
        rows.push(
            Row::Line(
                LineRow {
                    hunk_index: i,
                    old_line: line.old_line,
                    new_line: line.new_line,
                    origin: line.origin,
                    content: line.content.clone(),
                    word_spans,
                    no_newline: line.no_newline,
                    annotated,
                },
            ),
        );
        proof {
            assert(rows_view(rows@) =~= before + seq![line_row_spec(*file, items@, i as int, j as int)]);
        }
        push_anchored_rows(rows, items, &anchors, &file.path, hunk, j);
        proof {
            assert(line_rows_spec(*file, items@, i as int, j as int + 1) == line_rows_spec(
                *file,
                items@,
                i as int,
                j as int,
            ) + seq![line_row_spec(*file, items@, i as int, j as int)] + selected_rows(
                items@,
                |a: Annotation| anchor_line(a, file.path@, lines) == Some(j as int),
                items@.len() as int,
            ));
            assert(rows_view(rows@) =~= after_header + line_rows_spec(*file, items@, i as int, j as int + 1));
        }
        j = j + 1;
    }
    proof {
        assert(rows_view(rows@) =~= start + hunk_rows_spec(*file, items@, i as int));
    }
}

/// Builds the flattened row model for one file: a [`Row::FileHeader`],
/// followed by a [`Row::HunkHeader`] and its [`Row::Line`]s per hunk, or a
/// single [`Row::Binary`] placeholder for binary files. Annotations
/// targeting this file are spliced in as [`Row::Annotation`] rows after
/// their anchor, with covered rows flagged `annotated`.
pub fn build_rows(file: &FileDiff, annotations: &AnnotationStore) -> (rows: Vec<Row>)
    requires
        file_fits(*file),
    ensures
        rows_view(rows@) == build_rows_spec(*file, annotations.items()),
{
    let items = annotations.all();
    let mut rows: Vec<Row> = Vec::new();
    let mut file_notes: Vec<Row> = Vec::new();
    let any = push_file_annotation_rows(&mut file_notes, items, &file.path);
    rows.push(
        Row::FileHeader {
            path: file.path.clone(),
            old_path: clone_opt(&file.old_path),
            kind: file.kind,
            annotated: any,
        },
    );
    let ghost header = rows_view(rows@);
    extend_rows(&mut rows, file_notes);
    let ghost head = rows_view(rows@);
    let ghost path = file.path@;
    assert(header =~= seq![
        RowV::FileHeader {
            path: path,
            old_path: opt_view(file.old_path),
            kind: file.kind,
            annotated: exists|k: int| 0 <= k < items@.len() && file_hit(#[trigger] items@[k], path),
        },
    ]);
    if file.is_binary {
        let ghost before = rows_view(rows@);
        rows.push(Row::Binary);
        assert(rows_view(rows@) =~= before + seq![RowV::Binary]);
        assert(rows_view(rows@) =~= build_rows_spec(*file, annotations.items()));
        return rows;
    }
    let mut i: usize = 0;
    while i < file.hunks.len()
        invariant
            i <= file.hunks@.len(),
            file_fits(*file),
            items@ == annotations.items(),
            rows_view(rows@) == head + hunks_rows_spec(*file, items@, i as int),
        decreases file.hunks.len() - i,
    {
        push_hunk_rows(&mut rows, file, items, i);
        assert(rows_view(rows@) =~= head + hunks_rows_spec(*file, items@, i as int + 1));
        i = i + 1;
    }
    assert(rows_view(rows@) =~= build_rows_spec(*file, annotations.items()));
    rows
}

/// Whether `row` anchors `target` within `file`'s rows: the matching hunk
/// header for a hunk target, or a line whose number on the target's side is
/// the target's line or lies in its range.
pub open spec fn anchors_target(file: FileDiff, row: Row, target: Target) -> bool {
    match target {
        Target::File { .. } => true,
        Target::Hunk { start, end, .. } => match row {
            Row::HunkHeader { hunk_index, .. } => hunk_index < file.hunks@.len() && hunk_span_spec(
                file.hunks@[hunk_index as int],
            ) == (start, end),
            _ => false,
        },
        Target::Line { line, side, .. } => match row {
            Row::Line(l) => row_number_on(l, side) == Some(line),
            _ => false,
        },
        Target::Range { start, end, side, .. } => match row {
            Row::Line(l) => match row_number_on(l, side) {
                Some(n) => start <= n <= end,
                None => false,
            },
            _ => false,
        },
        _ => false,
    }
}

/// The first index among `rows[i..]` anchoring `target`.
pub open spec fn first_anchor(file: FileDiff, rows: Seq<Row>, target: Target, i: int) -> Option<usize>
    decreases rows.len() - i,
{
    if i < 0 || i >= rows.len() {
        None
    } else if anchors_target(file, rows[i], target) {
        Some(i as usize)
    } else {
        first_anchor(file, rows, target, i + 1)
    }
}

/// Locates the row in `rows` (built via [`build_rows`] for `file`) that
/// anchors `target`: row `0` for a file target, the matching hunk header
/// for a hunk target, or the first line row whose number on the target's
/// side falls within the target's line/range. `None` if no row matches (and
/// for worktree targets, which never anchor in a diff).
pub fn anchor_row_index(file: &FileDiff, rows: &[Row], target: &Target) -> (r: Option<usize>)
    requires
        file_fits(*file),
    ensures
        r == match target {
            Target::File { .. } => Some(0usize),
            _ => first_anchor(*file, rows@, *target, 0),
        },
{
    if let Target::File { .. } = target {
        return Some(0);
    }
    let mut i: usize = 0;
    while i < rows.len()
        invariant
            i <= rows@.len(),
            file_fits(*file),
            !(target is File),
            first_anchor(*file, rows@, *target, i as int) == first_anchor(*file, rows@, *target, 0),
        decreases rows.len() - i,
    {
        let hit = match target {
            Target::Hunk { start, end, .. } => match &rows[i] {
                Row::HunkHeader { hunk_index, .. } => *hunk_index < file.hunks.len() && {
                    let h = &file.hunks[*hunk_index];
                    assert(hunk_fits(*h));
                    let (s, e) = hunk_span(h);
                    s == *start && e == *end
                },
                _ => false,
            },
            Target::Line { line, side, .. } => match &rows[i] {
                Row::Line(l) => line_row_number(l, *side) == Some(*line),
                _ => false,
            },
            Target::Range { start, end, side, .. } => match &rows[i] {
                Row::Line(l) => match line_row_number(l, *side) {
                    Some(n) => *start <= n && n <= *end,
                    None => false,
                },
                _ => false,
            },
            _ => false,
        };
        assert(hit == anchors_target(*file, rows@[i as int], *target));
        if hit {
            return Some(i);
        }
        i = i + 1;
    }
    None
}

} // verus!
