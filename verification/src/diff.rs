//! The parsed diff model the diff pane is built from: files, hunks and
//! lines, plus the line pairing and word-diff spans row building
//! precomputes.
use vstd::prelude::*;

use crate::text::chars_of;

verus! {

/// Which side of the diff a line belongs to.
#[derive(Debug, Clone, Copy, PartialEq, Eq)]
pub enum LineOrigin {
    /// Present on both sides.
    Context,
    /// Only on the new side.
    Added,
    /// Only on the old side.
    Removed,
}

/// The kind of change a file underwent.
#[derive(Debug, Clone, Copy, PartialEq, Eq)]
pub enum FileChangeKind {
    /// A new file.
    Added,
    /// A removed file.
    Deleted,
    /// An edited file.
    Modified,
    /// A moved file.
    Renamed,
    /// A copied file.
    Copied,
}

impl FileChangeKind {
    /// The kind's porcelain status letter, as git's `--name-status` prints
    /// it.
    pub fn letter(self) -> (c: char)
        ensures
            c == match self {
                FileChangeKind::Added => 'A',
                FileChangeKind::Deleted => 'D',
                FileChangeKind::Modified => 'M',
                FileChangeKind::Renamed => 'R',
                FileChangeKind::Copied => 'C',
            },
    {
        match self {
            FileChangeKind::Added => 'A',
            FileChangeKind::Deleted => 'D',
            FileChangeKind::Modified => 'M',
            FileChangeKind::Renamed => 'R',
            FileChangeKind::Copied => 'C',
        }
    }
}

/// One line of hunk content with its gutter numbers.
#[derive(Debug, Clone, PartialEq, Eq)]
pub struct DiffLine {
    /// Which side the line belongs to.
    pub origin: LineOrigin,
    /// The line's text, without the origin marker.
    pub content: String,
    /// 1-based old-side line number, if the line exists there.
    pub old_line: Option<u32>,
    /// 1-based new-side line number, if the line exists there.
    pub new_line: Option<u32>,
    /// Whether the file has no trailing newline after this line.
    pub no_newline: bool,
}

/// One `@@ -a,b +c,d @@ section` hunk.
#[derive(Debug, Clone, PartialEq, Eq)]
pub struct Hunk {
    /// First old-side line.
    pub old_start: u32,
    /// Old-side line count.
    pub old_count: u32,
    /// First new-side line.
    pub new_start: u32,
    /// New-side line count.
    pub new_count: u32,
    /// The section text after the closing `@@`, if any.
    pub section: Option<String>,
    /// The hunk's body lines.
    pub lines: Vec<DiffLine>,
}

/// One file's parsed diff.
#[derive(Debug, Clone, PartialEq, Eq)]
pub struct FileDiff {
    /// The current (b-side) path.
    pub path: String,
    /// The original (a-side) path, for renames.
    pub old_path: Option<String>,
    /// The kind of change.
    pub kind: FileChangeKind,
    /// Whether git reported the file as binary.
    pub is_binary: bool,
    /// The hunks, in order.
    pub hunks: Vec<Hunk>,
}

/// Why a raw patch's hunks could not be read.
#[derive(Debug, Clone, PartialEq, Eq)]
pub enum DiffParseError {
    /// A `@@` line whose ranges do not parse.
    BadHunkHeader(String),
}

/// A review's aggregate added/removed line counts.
#[derive(Debug, Clone, Copy, PartialEq, Eq)]
pub struct DiffStat {
    /// Added lines.
    pub added: usize,
    /// Removed lines.
    pub removed: usize,
}

/// How a file's line changes show: not at all, as a binary placeholder,
/// or as added/removed counts.
#[derive(Debug, Clone, Copy, PartialEq, Eq)]
pub enum StatDisplay {
    /// Nothing is shown.
    Omitted,
    /// A binary file: no line counts.
    Binary,
    /// Added and removed line counts.
    Counts(DiffStat),
}

/// One span of a line's word-level diff against its paired counterpart.
#[derive(Debug, Clone, PartialEq, Eq)]
pub struct WordSpan {
    /// The span's text.
    pub text: String,
    /// Whether this span differs from the counterpart line.
    pub changed: bool,
}

impl View for WordSpan {
    type V = (Seq<char>, bool);

    open spec fn view(&self) -> (Seq<char>, bool) {
        (self.text@, self.changed)
    }
}

/// The view of a list of word spans.
pub open spec fn spans_view(spans: Seq<WordSpan>) -> Seq<(Seq<char>, bool)> {
    spans.map_values(|s: WordSpan| s@)
}

/// The origins of a hunk's lines.
pub open spec fn origins(lines: Seq<DiffLine>) -> Seq<LineOrigin> {
    lines.map_values(|l: DiffLine| l.origin)
}

/// The first index of the run of `o`-origin lines that ends at `j`.
pub open spec fn run_start(os: Seq<LineOrigin>, o: LineOrigin, j: int) -> int
    decreases j,
{
    if j > 0 && os[j - 1] == o {
        run_start(os, o, j - 1)
    } else {
        j
    }
}

/// One past the last index of the run of `o`-origin lines starting at or
/// continuing through `j`.
pub open spec fn run_end(os: Seq<LineOrigin>, o: LineOrigin, j: int) -> int
    decreases os.len() - j,
{
    if 0 <= j < os.len() && os[j] == o {
        run_end(os, o, j + 1)
    } else {
        j
    }
}

/// The line a hunk line is paired with for word diffing: the `k`-th line
/// of a run of removed lines pairs with the `k`-th line of the run of added
/// lines that immediately follows it, if that run has a `k`-th line.
/// Context lines, and surplus removed or added lines, are unpaired.
pub open spec fn partner(os: Seq<LineOrigin>, j: int) -> Option<int> {
    if !(0 <= j < os.len()) {
        None
    } else if os[j] == LineOrigin::Removed {
        let s = run_start(os, LineOrigin::Removed, j);
        let e = run_end(os, LineOrigin::Removed, j);
        let ae = run_end(os, LineOrigin::Added, e);
        if e + (j - s) < ae { Some(e + (j - s)) } else { None }
    } else if os[j] == LineOrigin::Added {
        let s = run_start(os, LineOrigin::Added, j);
        let rs = run_start(os, LineOrigin::Removed, s);
        if rs + (j - s) < s { Some(rs + (j - s)) } else { None }
    } else {
        None
    }
}

proof fn lemma_run_end_bounds(os: Seq<LineOrigin>, o: LineOrigin, j: int)
    requires
        0 <= j <= os.len(),
    ensures
        j <= run_end(os, o, j) <= os.len(),
        forall|k: int| j <= k < run_end(os, o, j) ==> os[k] == o,
        run_end(os, o, j) < os.len() ==> os[run_end(os, o, j)] != o,
    decreases os.len() - j,
{
    if j < os.len() && os[j] == o {
        lemma_run_end_bounds(os, o, j + 1);
    }
}

proof fn lemma_run_end_inside(os: Seq<LineOrigin>, o: LineOrigin, j: int, k: int)
    requires
        0 <= j <= k <= run_end(os, o, j),
        run_end(os, o, j) <= os.len(),
    ensures
        run_end(os, o, k) == run_end(os, o, j),
    decreases k - j,
{
    if j < k {
        lemma_run_end_bounds(os, o, j);
        lemma_run_end_inside(os, o, j + 1, k);
    }
}

proof fn lemma_run_start_bounds(os: Seq<LineOrigin>, o: LineOrigin, j: int)
    requires
        0 <= j <= os.len(),
    ensures
        0 <= run_start(os, o, j) <= j,
        forall|k: int| run_start(os, o, j) <= k < j ==> os[k] == o,
        run_start(os, o, j) > 0 ==> os[run_start(os, o, j) - 1] != o,
    decreases j,
{
    if j > 0 && os[j - 1] == o {
        lemma_run_start_bounds(os, o, j - 1);
    }
}

proof fn lemma_run_start_inside(os: Seq<LineOrigin>, o: LineOrigin, s: int, k: int)
    requires
        0 <= s <= k <= os.len(),
        forall|i: int| s <= i < k ==> os[i] == o,
        s == 0 || os[s - 1] != o,
    ensures
        run_start(os, o, k) == s,
    decreases k - s,
{
    if s < k {
        lemma_run_start_inside(os, o, s, k - 1);
    }
}

/// A line's partner is another line of the same hunk.
pub proof fn lemma_partner_range(os: Seq<LineOrigin>, j: int)
    ensures
        partner(os, j) matches Some(p) ==> 0 <= p < os.len() && p != j,
{
    if 0 <= j < os.len() {
        if os[j] == LineOrigin::Removed {
            lemma_run_start_bounds(os, LineOrigin::Removed, j);
            lemma_run_end_bounds(os, LineOrigin::Removed, j);
            let e = run_end(os, LineOrigin::Removed, j);
            lemma_run_end_bounds(os, LineOrigin::Added, e);
        } else if os[j] == LineOrigin::Added {
            lemma_run_start_bounds(os, LineOrigin::Added, j);
            let s = run_start(os, LineOrigin::Added, j);
            lemma_run_start_bounds(os, LineOrigin::Removed, s);
        }
    }
}

/// The line each hunk line is paired with (see [`partner`]).
pub fn pair_hunk_lines(hunk: &Hunk) -> (pairs: Vec<Option<usize>>)
    ensures
        pairs@.len() == hunk.lines@.len(),
        forall|j: int|
            0 <= j < pairs@.len() ==> #[trigger] pairs@[j] == match partner(origins(hunk.lines@), j) {
                Some(p) => Some(p as usize),
                None => None::<usize>,
            },
{
    let n = hunk.lines.len();
    let ghost os = origins(hunk.lines@);
    let mut pairs: Vec<Option<usize>> = Vec::new();
    let mut j: usize = 0;
    while j < n
        invariant
            j <= n == hunk.lines@.len() == os.len(),
            os == origins(hunk.lines@),
            pairs@.len() == j,
            forall|i: int|
                0 <= i < j ==> #[trigger] pairs@[i] == match partner(os, i) {
                    Some(p) => Some(p as usize),
                    None => None::<usize>,
                },
        decreases n - j,
    {
        let o = hunk.lines[j].origin;
        assert(os[j as int] == o);
        let p: Option<usize> = match o {
            LineOrigin::Context => None,
            LineOrigin::Removed => {
                let mut s = j;
                while s > 0 && matches!(hunk.lines[s - 1].origin, LineOrigin::Removed)
                    invariant
                        s <= j < n == os.len(),
                        os == origins(hunk.lines@),
                        run_start(os, LineOrigin::Removed, s as int) == run_start(
                            os,
                            LineOrigin::Removed,
                            j as int,
                        ),
                    decreases s,
                {
                    s = s - 1;
                }
                let mut e = j;
                while e < n && matches!(hunk.lines[e].origin, LineOrigin::Removed)
                    invariant
                        j <= e <= n == os.len(),
                        os == origins(hunk.lines@),
                        run_end(os, LineOrigin::Removed, e as int) == run_end(
                            os,
                            LineOrigin::Removed,
                            j as int,
                        ),
                    decreases n - e,
                {
                    e = e + 1;
                }
                let mut ae = e;
                while ae < n && matches!(hunk.lines[ae].origin, LineOrigin::Added)
                    invariant
                        e <= ae <= n == os.len(),
                        os == origins(hunk.lines@),
                        run_end(os, LineOrigin::Added, ae as int) == run_end(
                            os,
                            LineOrigin::Added,
                            e as int,
                        ),
                    decreases n - ae,
                {
                    ae = ae + 1;
                }
                proof {
                    lemma_run_start_bounds(os, LineOrigin::Removed, j as int);
                }
                if j - s < ae - e {
                    Some(e + (j - s))
                } else {
                    None
                }
            },
            LineOrigin::Added => {
                let mut s = j;
                while s > 0 && matches!(hunk.lines[s - 1].origin, LineOrigin::Added)
                    invariant
                        s <= j < n == os.len(),
                        os == origins(hunk.lines@),
                        run_start(os, LineOrigin::Added, s as int) == run_start(
                            os,
                            LineOrigin::Added,
                            j as int,
                        ),
                    decreases s,
                {
                    s = s - 1;
                }
                let mut rs = s;
                while rs > 0 && matches!(hunk.lines[rs - 1].origin, LineOrigin::Removed)
                    invariant
                        rs <= s <= j < n == os.len(),
                        os == origins(hunk.lines@),
                        run_start(os, LineOrigin::Removed, rs as int) == run_start(
                            os,
                            LineOrigin::Removed,
                            s as int,
                        ),
                    decreases rs,
                {
                    rs = rs - 1;
                }
                if j - s < s - rs {
                    Some(rs + (j - s))
                } else {
                    None
                }
            },
        };
        pairs.push(p);
        j = j + 1;
    }
    pairs
}

/// The length of the longest common prefix of `a` and `b`.
pub open spec fn common_prefix_len(a: Seq<char>, b: Seq<char>) -> int
    decreases a.len(),
{
    if a.len() == 0 || b.len() == 0 || a[0] != b[0] {
        0
    } else {
        1 + common_prefix_len(a.drop_first(), b.drop_first())
    }
}

/// The length of the longest common suffix of `a` and `b`.
pub open spec fn common_suffix_len(a: Seq<char>, b: Seq<char>) -> int
    decreases a.len(),
{
    if a.len() == 0 || b.len() == 0 || a.last() != b.last() {
        0
    } else {
        1 + common_suffix_len(a.drop_last(), b.drop_last())
    }
}

/// One line's diff spans given the shared prefix length `p` and the shared
/// suffix length `q` (disjoint from the prefix): an unchanged prefix, a
/// changed middle and an unchanged suffix, each present only if non-empty.
pub open spec fn side_spans(s: Seq<char>, p: int, q: int) -> Seq<(Seq<char>, bool)> {
    let pre = if p > 0 { seq![(s.take(p), false)] } else { seq![] };
    let mid = if s.len() - q > p { seq![(s.subrange(p, s.len() - q), true)] } else { seq![] };
    let suf = if q > 0 { seq![(s.skip(s.len() - q), false)] } else { seq![] };
    pre + mid + suf
}

/// The diff spans of `old` and `new` against each other: the text they share
/// at the start and at the end is unchanged, the rest of each is changed.
pub open spec fn word_diff_spec(old: Seq<char>, new: Seq<char>) -> (
    Seq<(Seq<char>, bool)>,
    Seq<(Seq<char>, bool)>,
) {
    let p = common_prefix_len(old, new);
    let q = common_suffix_len(old.skip(p), new.skip(p));
    (side_spans(old, p, q), side_spans(new, p, q))
}

proof fn lemma_prefix_step(a: Seq<char>, b: Seq<char>, i: int)
    requires
        0 <= i <= a.len(),
        i <= b.len(),
        forall|k: int| 0 <= k < i ==> a[k] == b[k],
    ensures
        common_prefix_len(a, b) == i + common_prefix_len(a.skip(i), b.skip(i)),
    decreases i,
{
    if i > 0 {
        assert(a[0] == b[0]);
        lemma_prefix_step(a.drop_first(), b.drop_first(), i - 1);
        assert(a.drop_first().skip(i - 1) =~= a.skip(i));
        assert(b.drop_first().skip(i - 1) =~= b.skip(i));
    } else {
        assert(a.skip(0) =~= a);
        assert(b.skip(0) =~= b);
    }
}

/// Whether the `k`-th chars from the end of `a` and `b` agree.
pub open spec fn rev_eq(a: Seq<char>, b: Seq<char>, k: int) -> bool {
    a[a.len() - 1 - k] == b[b.len() - 1 - k]
}

proof fn lemma_suffix_step(a: Seq<char>, b: Seq<char>, i: int)
    requires
        0 <= i <= a.len(),
        i <= b.len(),
        forall|k: int| 0 <= k < i ==> #[trigger] rev_eq(a, b, k),
    ensures
        common_suffix_len(a, b) == i + common_suffix_len(
            a.take(a.len() - i),
            b.take(b.len() - i),
        ),
    decreases i,
{
    if i > 0 {
        assert(a.last() == b.last()) by {
            assert(rev_eq(a, b, 0));
        }
        assert forall|k: int| 0 <= k < i - 1 implies #[trigger] rev_eq(a.drop_last(), b.drop_last(), k) by {
            assert(rev_eq(a, b, k + 1));
        }
        lemma_suffix_step(a.drop_last(), b.drop_last(), i - 1);
        assert(a.drop_last().take(a.drop_last().len() - (i - 1)) =~= a.take(a.len() - i));
        assert(b.drop_last().take(b.drop_last().len() - (i - 1)) =~= b.take(b.len() - i));
    } else {
        assert(a.take(a.len() as int) =~= a);
        assert(b.take(b.len() as int) =~= b);
    }
}

/// The span with text `s[from..to]`.
fn span_of(s: &[char], from: usize, to: usize, changed: bool) -> (w: WordSpan)
    requires
        from <= to <= s.len(),
    ensures
        w@ == (s@.subrange(from as int, to as int), changed),
{
    let mut text = String::new();
    let mut i = from;
    while i < to
        invariant
            from <= i <= to <= s.len(),
            text@ == s@.subrange(from as int, i as int),
        decreases to - i,
    {
        crate::text::push_char(&mut text, s[i]);
        i = i + 1;
        assert(text@ =~= s@.subrange(from as int, i as int));
    }
    WordSpan { text, changed }
}

fn build_side(s: &[char], p: usize, q: usize) -> (out: Vec<WordSpan>)
    requires
        p + q <= s.len(),
    ensures
        spans_view(out@) == side_spans(s@, p as int, q as int),
{
    let mut out: Vec<WordSpan> = Vec::new();
    if p > 0 {
        out.push(span_of(s, 0, p, false));
    }
    if s.len() - q > p {
        out.push(span_of(s, p, s.len() - q, true));
    }
    if q > 0 {
        out.push(span_of(s, s.len() - q, s.len(), false));
    }
    proof {
        assert(s@.subrange(0, p as int) =~= s@.take(p as int));
        assert(s@.subrange(s.len() - q, s.len() as int) =~= s@.skip(s.len() - q));
        assert(spans_view(out@) =~= side_spans(s@, p as int, q as int));
    }
    out
}

/// The diff spans of two paired lines against each other (see
/// [`word_diff_spec`]).
pub fn word_diff(old: &str, new: &str) -> (r: (Vec<WordSpan>, Vec<WordSpan>))
    ensures
        (spans_view(r.0@), spans_view(r.1@)) == word_diff_spec(old@, new@),
{
    let a = chars_of(old);
    let b = chars_of(new);
    let mut p: usize = 0;
    while p < a.len() && p < b.len() && a[p] == b[p]
        invariant
            p <= a.len(),
            p <= b.len(),
            forall|k: int| 0 <= k < p ==> a@[k] == b@[k],
        decreases a.len() - p,
    {
        p = p + 1;
    }
    proof {
        lemma_prefix_step(a@, b@, p as int);
        let ra = a@.skip(p as int);
        let rb = b@.skip(p as int);
        if p < a.len() && p < b.len() {
            assert(ra[0] != rb[0]);
        }
        assert(common_prefix_len(ra, rb) == 0);
    }
    let ghost ra = a@.skip(p as int);
    let ghost rb = b@.skip(p as int);
    let mut q: usize = 0;
    while q < a.len() - p && q < b.len() - p && a[a.len() - 1 - q] == b[b.len() - 1 - q]
        invariant
            p <= a.len(),
            p <= b.len(),
            q <= a.len() - p,
            q <= b.len() - p,
            ra == a@.skip(p as int),
            rb == b@.skip(p as int),
            forall|k: int| 0 <= k < q ==> #[trigger] rev_eq(ra, rb, k),
        decreases a.len() - p - q,
    {
        assert(ra[ra.len() - 1 - q] == a@[a.len() - 1 - q]);
        assert(rb[rb.len() - 1 - q] == b@[b.len() - 1 - q]);
        q = q + 1;
    }
    proof {
        lemma_suffix_step(ra, rb, q as int);
        let ta = ra.take(ra.len() - q);
        let tb = rb.take(rb.len() - q);
        if q < ra.len() && q < rb.len() {
            assert(ta.last() == a@[a.len() - 1 - q]);
            assert(tb.last() == b@[b.len() - 1 - q]);
        }
        assert(common_suffix_len(ta, tb) == 0);
    }
    (build_side(&a, p, q), build_side(&b, p, q))
}

} // verus!
