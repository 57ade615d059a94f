//! The diff pane's state: every file of the review laid out one after the
//! other as sections of one row list (a collapsed section shows only its
//! header), which file each row belongs to, and the cursor.
use vstd::prelude::*;

use crate::annotate::{Annotation, AnnotationStore};
use crate::diff::FileDiff;
use crate::rows::{Row, RowV, build_rows, build_rows_spec, file_fits, rows_view};

verus! {

/// Whether every file fits (see [`file_fits`]).
pub open spec fn files_fit(files: Seq<FileDiff>) -> bool {
    forall|i: int| 0 <= i < files.len() ==> file_fits(#[trigger] files[i])
}

/// One file's section: its rows, or only its header when collapsed.
#[verifier::opaque]
pub open spec fn section_rows(file: FileDiff, items: Seq<Annotation>, collapsed: bool) -> Seq<RowV> {
    if collapsed {
        build_rows_spec(file, items).take(1)
    } else {
        build_rows_spec(file, items)
    }
}

/// The sections of the first `n` files, one after the other.
pub open spec fn sections(
    files: Seq<FileDiff>,
    collapsed: Seq<bool>,
    items: Seq<Annotation>,
    n: int,
) -> Seq<RowV>
    decreases n,
{
    if n <= 0 {
        seq![]
    } else {
        sections(files, collapsed, items, n - 1) + section_rows(files[n - 1], items, collapsed[n - 1])
    }
}

/// The diff pane's state.
#[derive(Debug, Clone)]
pub struct DiffViewState {
    /// The files under review, in display order.
    pub files: Vec<FileDiff>,
    /// Whether each file's section is collapsed to its header.
    pub collapsed: Vec<bool>,
    /// Every section's rows, one after the other.
    pub rows: Vec<Row>,
    /// The file each row belongs to.
    pub file_of_row: Vec<usize>,
    /// The header row of each file's section.
    pub header_row_of_file: Vec<usize>,
    /// The cursor's row.
    pub cursor: usize,
}

/// The section of `file`: its rows, cut to the header when collapsed.
fn section_of(file: &FileDiff, annotations: &AnnotationStore, collapsed: bool) -> (rows: Vec<Row>)
    requires
        file_fits(*file),
    ensures
        rows_view(rows@) == section_rows(*file, annotations.items(), collapsed),
        rows@.len() >= 1,
{
    let mut rows = build_rows(file, annotations);
    assert(rows_view(rows@).len() >= 1);
    if collapsed {
        rows.truncate(1);
        assert(rows_view(rows@) =~= build_rows_spec(*file, annotations.items()).take(1));
    }
    proof {
        reveal(section_rows);
    }
    rows
}

/// Where section `g` of the first `f` ends over `len` rows.
pub open spec fn end_at(hr: Seq<usize>, g: int, f: int, len: int) -> int {
    if g + 1 < f {
        hr[g + 1] as int
    } else {
        len
    }
}

/// The first `f` sections are laid out back to back over `len` rows: each
/// starting at its header row, non-empty, with its rows attributed to it.
pub open spec fn laid_out(hr: Seq<usize>, fr: Seq<usize>, len: int, f: int) -> bool {
    &&& hr.len() == f
    &&& fr.len() == len
    &&& f == 0 ==> len == 0
    &&& f > 0 ==> hr[0] == 0
    &&& forall|g: int| 0 <= g < f ==> (#[trigger] hr[g]) < end_at(hr, g, f, len)
    &&& forall|g: int| 0 <= g < f ==> #[trigger] end_at(hr, g, f, len) <= len
    &&& forall|g: int, i: int|
        #![trigger hr[g], fr[i]]
        0 <= g < f && hr[g] <= i < end_at(hr, g, f, len) ==> fr[i] == g
}

#[verifier::rlimit(40)]
proof fn lemma_laid_out_step(
    hr0: Seq<usize>,
    fr0: Seq<usize>,
    hr: Seq<usize>,
    fr: Seq<usize>,
    len0: usize,
    count: int,
    f: int,
)
    requires
        laid_out(hr0, fr0, len0 as int, f),
        count >= 1,
        hr == hr0.push(len0),
        fr.len() == len0 + count,
        forall|i: int| 0 <= i < len0 ==> fr[i] == fr0[i],
        forall|i: int| len0 <= i < len0 + count ==> fr[i] == f,
    ensures
        laid_out(hr, fr, len0 + count, f + 1),
{
    let len = len0 + count;
    assert(hr[f] == len0);
    assert forall|g: int| 0 <= g < f + 1 implies end_at(hr, g, f + 1, len) >= end_at(
        hr0,
        g,
        f,
        len0 as int,
    ) && hr[g] == (if g < f { hr0[g] } else { len0 }) by {
        if g + 1 < f {
            assert(hr[g + 1] == hr0[g + 1]);
        }
    }
    assert forall|g: int| 0 <= g < f + 1 implies (#[trigger] hr[g]) < end_at(hr, g, f + 1, len) by {
        if g < f {
            assert(hr0[g] < end_at(hr0, g, f, len0 as int));
        }
    }
    assert forall|g: int| 0 <= g < f + 1 implies #[trigger] end_at(hr, g, f + 1, len) <= len by {
        if g < f {
            assert(end_at(hr0, g, f, len0 as int) <= len0);
            assert(end_at(hr, g, f + 1, len) == end_at(hr0, g, f, len0 as int));
        }
    }
    assert forall|g: int, i: int|
        #![trigger hr[g], fr[i]]
        0 <= g < f + 1 && hr[g] <= i < end_at(hr, g, f + 1, len) implies fr[i] == g by {
        if g < f {
            assert(end_at(hr, g, f + 1, len) == end_at(hr0, g, f, len0 as int));
            assert(hr0[g] <= i < end_at(hr0, g, f, len0 as int));
            assert(end_at(hr0, g, f, len0 as int) <= len0);
            assert(fr[i] == fr0[i]);
            assert(fr0[i] == g);
        }
    }
}

/// Appends section `f`'s rows, recording its header row and attributing
/// its rows to it.
fn push_section(
    rows: &mut Vec<Row>,
    file_of_row: &mut Vec<usize>,
    header_row_of_file: &mut Vec<usize>,
    section: Vec<Row>,
    f: usize,
)
    requires
        laid_out(old(header_row_of_file)@, old(file_of_row)@, old(rows)@.len() as int, f as int),
        section@.len() >= 1,
    ensures
        laid_out(final(header_row_of_file)@, final(file_of_row)@, final(rows)@.len() as int, f + 1),
        rows_view(final(rows)@) == rows_view(old(rows)@) + rows_view(section@),
{
    let ghost before = rows@;
    let ghost fr_before = file_of_row@;
    let ghost hr_before = header_row_of_file@;
    header_row_of_file.push(rows.len());
    let count = section.len();
    let mut k: usize = 0;
    while k < count
        invariant
            k <= count,
            file_of_row@.len() == fr_before.len() + k,
            forall|i: int| 0 <= i < fr_before.len() ==> file_of_row@[i] == fr_before[i],
            forall|i: int| fr_before.len() <= i < fr_before.len() + k ==> file_of_row@[i] == f,
        decreases count - k,
    {
        file_of_row.push(f);
        k = k + 1;
    }
    let ghost sec = section@;
    let mut section = section;
    rows.append(&mut section);
    proof {
        assert(rows@ == before + sec);
        assert(rows_view(rows@) =~= rows_view(before) + rows_view(sec));
        lemma_laid_out_step(
            hr_before,
            fr_before,
            header_row_of_file@,
            file_of_row@,
            before.len() as usize,
            count as int,
            f as int,
        );
    }
}

/// The layout's consistency depends only on the files, rows and their
/// attribution, and on how many collapsed flags there are.
proof fn lemma_wf_layout(a: DiffViewState, b: DiffViewState)
    requires
        a.wf(),
        a.files == b.files,
        a.rows == b.rows,
        a.file_of_row == b.file_of_row,
        a.header_row_of_file == b.header_row_of_file,
        a.collapsed@.len() == b.collapsed@.len(),
    ensures
        b.wf(),
{
    assert forall|f: int| 0 <= f < b.files@.len() implies b.start_of(f) < #[trigger] b.end_of(f) by {
        assert(a.start_of(f) < a.end_of(f));
    }
    assert forall|f: int, i: int|
        #![trigger b.start_of(f), b.file_of_row@[i]]
        0 <= f < b.files@.len() && b.start_of(f) <= i < b.end_of(f) implies b.file_of_row@[i] == f by {
        assert(a.start_of(f) <= i < a.end_of(f));
        assert(a.file_of_row@[i] == f);
    }
}

impl DiffViewState {
    /// The first row of file `f`'s section.
    pub open spec fn start_of(&self, f: int) -> int {
        self.header_row_of_file@[f] as int
    }

    /// One past the last row of file `f`'s section.
    pub open spec fn end_of(&self, f: int) -> int {
        if f + 1 < self.files@.len() {
            self.header_row_of_file@[f + 1] as int
        } else {
            self.rows@.len() as int
        }
    }

    /// The layout is consistent: one collapsed flag and one header row per
    /// file, sections back to back from row 0 to the last row, each
    /// non-empty, and every row attributed to its section's file.
    pub open spec fn wf(&self) -> bool {
        let n = self.files@.len();
        &&& self.collapsed@.len() == n
        &&& self.header_row_of_file@.len() == n
        &&& self.file_of_row@.len() == self.rows@.len()
        &&& n == 0 ==> self.rows@.len() == 0
        &&& n > 0 ==> self.header_row_of_file@[0] == 0
        &&& forall|f: int| 0 <= f < n ==> self.start_of(f) < #[trigger] self.end_of(f)
        &&& forall|f: int, i: int|
            #![trigger self.start_of(f), self.file_of_row@[i]]
            0 <= f < n && self.start_of(f) <= i < self.end_of(f) ==> self.file_of_row@[i] == f
    }

    /// The rows are the sections of every file under `items`.
    pub open spec fn shows(&self, items: Seq<Annotation>) -> bool {
        rows_view(self.rows@) == sections(self.files@, self.collapsed@, items, self.files@.len() as int)
    }

    /// Lays the sections out again for the current files and collapsed
    /// flags, with `annotations` spliced in.
    pub fn rebuild(&mut self, annotations: &AnnotationStore)
        requires
            files_fit(old(self).files@),
            old(self).collapsed@.len() == old(self).files@.len(),
        ensures
            final(self).wf(),
            final(self).shows(annotations.items()),
            final(self).files == old(self).files,
            final(self).collapsed == old(self).collapsed,
            final(self).cursor == old(self).cursor,
    {
        let n = self.files.len();
        let ghost items = annotations.items();
        let mut rows: Vec<Row> = Vec::new();
        let mut file_of_row: Vec<usize> = Vec::new();
        let mut header_row_of_file: Vec<usize> = Vec::new();
        let mut f: usize = 0;
        while f < n
            invariant
                n == self.files@.len(),
                items == annotations.items(),
                files_fit(self.files@),
                self.collapsed@.len() == n,
                f <= n,
                rows_view(rows@) == sections(self.files@, self.collapsed@, items, f as int),
                laid_out(header_row_of_file@, file_of_row@, rows@.len() as int, f as int),
            decreases n - f,
        {
            let section = section_of(&self.files[f], annotations, self.collapsed[f]);
            let ghost sv = rows_view(section@);
            let ghost before = rows_view(rows@);
            assert(sv == section_rows(self.files@[f as int], items, self.collapsed@[f as int]));
            push_section(&mut rows, &mut file_of_row, &mut header_row_of_file, section, f);
            assert(rows_view(rows@) == before + sv);
            assert(sections(self.files@, self.collapsed@, items, f + 1) == sections(
                self.files@,
                self.collapsed@,
                items,
                f as int,
            ) + section_rows(self.files@[f as int], items, self.collapsed@[f as int]));
            f = f + 1;
        }
        self.rows = rows;
        self.file_of_row = file_of_row;
        self.header_row_of_file = header_row_of_file;
        proof {
            assert forall|g: int| 0 <= g < n implies self.start_of(g) < #[trigger] self.end_of(g) by {
                assert(self.header_row_of_file@[g] < end_at(
                    self.header_row_of_file@,
                    g,
                    n as int,
                    self.rows@.len() as int,
                ));
            }
            assert forall|g: int, i: int|
                #![trigger self.start_of(g), self.file_of_row@[i]]
                0 <= g < n && self.start_of(g) <= i < self.end_of(g) implies self.file_of_row@[i] == g by {
                assert(self.header_row_of_file@[g] <= i < end_at(
                    self.header_row_of_file@,
                    g,
                    n as int,
                    self.rows@.len() as int,
                ));
            }
        }
    }

    /// A view over `files`, every section expanded, no annotations, cursor
    /// on the first row.
    pub fn new(files: Vec<FileDiff>) -> (v: DiffViewState)
        requires
            files_fit(files@),
        ensures
            v.wf(),
            v.shows(seq![]),
            v.files == files,
            forall|i: int| 0 <= i < files@.len() ==> !(#[trigger] v.collapsed@[i]),
            v.cursor == 0,
    {
        let n = files.len();
        let mut collapsed: Vec<bool> = Vec::new();
        let mut i: usize = 0;
        while i < n
            invariant
                i <= n,
                collapsed@.len() == i,
                forall|k: int| 0 <= k < i ==> !(#[trigger] collapsed@[k]),
            decreases n - i,
        {
            collapsed.push(false);
            i = i + 1;
        }
        let mut v = DiffViewState {
            files,
            collapsed,
            rows: Vec::new(),
            file_of_row: Vec::new(),
            header_row_of_file: Vec::new(),
            cursor: 0,
        };
        let empty = AnnotationStore::new();
        v.rebuild(&empty);
        assert(empty.items() =~= seq![]);
        v
    }

    /// The index of the first file at `path`, if any.
    pub open spec fn index_of_path(&self, path: Seq<char>) -> Option<int> {
        if exists|i: int| 0 <= i < self.files@.len() && self.files@[i].path@ == path {
            Some(
                choose|i: int|
                    0 <= i < self.files@.len() && self.files@[i].path@ == path && forall|j: int|
                        0 <= j < i ==> self.files@[j].path@ != path,
            )
        } else {
            None
        }
    }

    /// The index of the first file at `path`, if any.
    pub fn find_path(&self, path: &str) -> (r: Option<usize>)
        ensures
            r matches Some(i) ==> i < self.files@.len(),
            match r {
                Some(i) => self.index_of_path(path@) == Some(i as int),
                None => self.index_of_path(path@) is None,
            },
    {
        let mut i: usize = 0;
        while i < self.files.len()
            invariant
                i <= self.files@.len(),
                forall|j: int| 0 <= j < i ==> self.files@[j].path@ != path@,
            decreases self.files.len() - i,
        {
            if crate::text::str_eq(self.files[i].path.as_str(), path) {
                proof {
                    let c = choose|k: int|
                        0 <= k < self.files@.len() && self.files@[k].path@ == path@ && forall|j: int|
                            0 <= j < k ==> self.files@[j].path@ != path@;
                    assert(0 <= c < self.files@.len() && self.files@[c].path@ == path@ && forall|j: int|
                        0 <= j < c ==> self.files@[j].path@ != path@);
                    if c < i {
                    } else if c > i {
                        assert(self.files@[i as int].path@ != path@);
                    }
                }
                return Some(i);
            }
            i = i + 1;
        }
        None
    }

    /// Whether the first file at `path` is collapsed (false when there is
    /// none).
    pub fn is_collapsed(&self, path: &str) -> (b: bool)
        requires
            self.wf(),
        ensures
            b == match self.index_of_path(path@) {
                Some(i) => self.collapsed@[i],
                None => false,
            },
    {
        match self.find_path(path) {
            Some(i) => self.collapsed[i],
            None => false,
        }
    }

    /// Collapses (or expands) the first file at `path`; a no-op when there
    /// is none. The rows are laid out again by the caller.
    pub fn set_collapsed(&mut self, path: &str, collapsed: bool)
        requires
            old(self).wf(),
        ensures
            final(self).wf(),
            *final(self) == (DiffViewState { collapsed: final(self).collapsed, ..*old(self) }),
            final(self).collapsed@ == match old(self).index_of_path(path@) {
                Some(i) => old(self).collapsed@.update(i, collapsed),
                None => old(self).collapsed@,
            },
    {
        if let Some(i) = self.find_path(path) {
            let ghost before = *self;
            self.collapsed.set(i, collapsed);
            proof {
                lemma_wf_layout(before, *self);
            }
        }
    }

    /// Moves the cursor to row `c`.
    pub fn set_cursor(&mut self, c: usize)
        requires
            old(self).wf(),
        ensures
            final(self).wf(),
            *final(self) == (DiffViewState { cursor: c, ..*old(self) }),
    {
        let ghost before = *self;
        self.cursor = c;
        proof {
            lemma_wf_layout(before, *self);
        }
    }

    /// The file the cursor's row belongs to (the first file when the cursor
    /// is past the rows).
    pub fn file_of_cursor(&self) -> (f: usize)
        ensures
            f == if self.cursor < self.file_of_row@.len() {
                self.file_of_row@[self.cursor as int] as int
            } else {
                0
            },
    {
        if self.cursor < self.file_of_row.len() {
            self.file_of_row[self.cursor]
        } else {
            0
        }
    }

    /// The rows `[start, end)` of file `f`'s section.
    pub fn section_span(&self, f: usize) -> (r: (usize, usize))
        requires
            self.wf(),
            f < self.files@.len(),
        ensures
            r.0 == self.start_of(f as int),
            r.1 == self.end_of(f as int),
    {
        let start = self.header_row_of_file[f];
        let end = if f < self.files.len() - 1 {
            self.header_row_of_file[f + 1]
        } else {
            self.rows.len()
        };
        (start, end)
    }
}

} // verus!
