//! Review annotations: what a note is attached to ([`Target`]), its
//! classification, and the per-session store the diff pane splices notes
//! from.
use vstd::prelude::*;

verus! {

/// A side of the diff.
#[derive(Debug, Clone, Copy, PartialEq, Eq)]
pub enum Side {
    /// The pre-change side.
    Old,
    /// The post-change side.
    New,
}

/// What kind of remark an annotation is.
#[derive(Debug, Clone, Copy, PartialEq, Eq)]
pub enum Classification {
    /// Something that must change.
    Issue,
    /// An optional improvement.
    Suggestion,
    /// A question for the author.
    Question,
    /// A minor style point.
    Nit,
    /// Positive feedback.
    Praise,
}

/// What an annotation is anchored to.
#[derive(Debug, Clone, PartialEq, Eq)]
pub enum Target {
    /// A whole file.
    File { path: String },
    /// A hunk's span (new-side lines, or old-side for a pure deletion);
    /// `other_end` is the old-side number of the span's end line when that
    /// line is context.
    Hunk { path: String, start: u32, end: u32, other_end: Option<u32> },
    /// One line on one side; `other` is the opposite side's number of a
    /// context line.
    Line { path: String, line: u32, side: Side, other: Option<u32> },
    /// An inclusive line range on one side; `other_end` as for `Hunk`.
    Range { path: String, start: u32, end: u32, side: Side, other_end: Option<u32> },
    /// A line of the current worktree file (not a diff side).
    WorktreeLine { path: String, line: u32 },
    /// An inclusive line range of the current worktree file.
    WorktreeRange { path: String, start: u32, end: u32 },
}

/// A [`Target`] as plain values.
pub enum TargetV {
    File { path: Seq<char> },
    Hunk { path: Seq<char>, start: u32, end: u32, other_end: Option<u32> },
    Line { path: Seq<char>, line: u32, side: Side, other: Option<u32> },
    Range { path: Seq<char>, start: u32, end: u32, side: Side, other_end: Option<u32> },
    WorktreeLine { path: Seq<char>, line: u32 },
    WorktreeRange { path: Seq<char>, start: u32, end: u32 },
}

impl View for Target {
    type V = TargetV;

    open spec fn view(&self) -> TargetV {
        match self {
            Target::File { path } => TargetV::File { path: path@ },
            Target::Hunk { path, start, end, other_end } => TargetV::Hunk {
                path: path@,
                start: *start,
                end: *end,
                other_end: *other_end,
            },
            Target::Line { path, line, side, other } => TargetV::Line {
                path: path@,
                line: *line,
                side: *side,
                other: *other,
            },
            Target::Range { path, start, end, side, other_end } => TargetV::Range {
                path: path@,
                start: *start,
                end: *end,
                side: *side,
                other_end: *other_end,
            },
            Target::WorktreeLine { path, line } => TargetV::WorktreeLine { path: path@, line: *line },
            Target::WorktreeRange { path, start, end } => TargetV::WorktreeRange {
                path: path@,
                start: *start,
                end: *end,
            },
        }
    }
}

/// The view of an optional target.
pub open spec fn opt_target_view(t: Option<Target>) -> Option<TargetV> {
    match t {
        Some(t) => Some(t@),
        None => None,
    }
}

/// A span-shaped target whose end precedes its start.
#[derive(Debug, Clone, Copy, PartialEq, Eq)]
pub struct InvertedSpan {
    /// The offending start line.
    pub start: u32,
    /// The offending end line.
    pub end: u32,
}

/// The text of `s`, copied.
pub fn copy_str(s: &str) -> (out: String)
    ensures
        out@ == s@,
{
    let mut out = String::new();
    crate::text::push_all(&mut out, s);
    out
}

impl Target {
    /// The path the target belongs to.
    pub open spec fn path_of(&self) -> Seq<char> {
        match self {
            Target::File { path } => path@,
            Target::Hunk { path, .. } => path@,
            Target::Line { path, .. } => path@,
            Target::Range { path, .. } => path@,
            Target::WorktreeLine { path, .. } => path@,
            Target::WorktreeRange { path, .. } => path@,
        }
    }

    /// The path the target belongs to.
    pub fn path(&self) -> (p: &String)
        ensures
            p@ == self.path_of(),
    {
        match self {
            Target::File { path } => path,
            Target::Hunk { path, .. } => path,
            Target::Line { path, .. } => path,
            Target::Range { path, .. } => path,
            Target::WorktreeLine { path, .. } => path,
            Target::WorktreeRange { path, .. } => path,
        }
    }

    /// A whole-file target.
    pub fn file(path: &str) -> (t: Target)
        ensures
            t matches Target::File { path: p } && p@ == path@,
    {
        Target::File { path: copy_str(path) }
    }

    /// A one-line target with no opposite-side number.
    pub fn line(path: &str, line: u32, side: Side) -> (t: Target)
        ensures
            t matches Target::Line { path: p, line: l, side: s, other: o } && p@ == path@ && l == line
                && s == side && o is None,
    {
        Target::Line { path: copy_str(path), line, side, other: None }
    }

    /// A one-line target carrying the opposite side's number of a context
    /// line.
    pub fn line_with_other(path: &str, line: u32, side: Side, other: Option<u32>) -> (t: Target)
        ensures
            t matches Target::Line { path: p, line: l, side: s, other: o } && p@ == path@ && l == line
                && s == side && o == other,
    {
        Target::Line { path: copy_str(path), line, side, other }
    }

    /// A hunk target over `start..=end`; refused when `end < start`.
    pub fn hunk(path: &str, start: u32, end: u32) -> (r: Result<Target, InvertedSpan>)
        ensures
            start <= end ==> (r matches Ok(Target::Hunk { path: p, start: s, end: e, other_end: o })
                && p@ == path@ && s == start && e == end && o is None),
            start > end ==> r == Err::<Target, InvertedSpan>(InvertedSpan { start, end }),
    {
        Target::hunk_with_other_end(path, start, end, None)
    }

    /// A hunk target over `start..=end` with the end line's old-side
    /// number; refused when `end < start`.
    pub fn hunk_with_other_end(path: &str, start: u32, end: u32, other_end: Option<u32>) -> (r:
        Result<Target, InvertedSpan>)
        ensures
            start <= end ==> (r matches Ok(Target::Hunk { path: p, start: s, end: e, other_end: o })
                && p@ == path@ && s == start && e == end && o == other_end),
            start > end ==> r == Err::<Target, InvertedSpan>(InvertedSpan { start, end }),
    {
        if start <= end {
            Ok(Target::Hunk { path: copy_str(path), start, end, other_end })
        } else {
            Err(InvertedSpan { start, end })
        }
    }

    /// A range target over `start..=end` on `side`; refused when
    /// `end < start`.
    pub fn range(path: &str, start: u32, end: u32, side: Side) -> (r: Result<Target, InvertedSpan>)
        ensures
            start <= end ==> (r matches Ok(
                Target::Range { path: p, start: s, end: e, side: sd, other_end: o },
            ) && p@ == path@ && s == start && e == end && sd == side && o is None),
            start > end ==> r == Err::<Target, InvertedSpan>(InvertedSpan { start, end }),
    {
        Target::range_with_other_end(path, start, end, side, None)
    }

    /// A range target carrying its end line's opposite-side number.
    pub fn range_with_other_end(
        path: &str,
        start: u32,
        end: u32,
        side: Side,
        other_end: Option<u32>,
    ) -> (r: Result<Target, InvertedSpan>)
        ensures
            start <= end ==> (r matches Ok(
                Target::Range { path: p, start: s, end: e, side: sd, other_end: o },
            ) && p@ == path@ && s == start && e == end && sd == side && o == other_end),
            start > end ==> r == Err::<Target, InvertedSpan>(InvertedSpan { start, end }),
    {
        if start <= end {
            Ok(Target::Range { path: copy_str(path), start, end, side, other_end })
        } else {
            Err(InvertedSpan { start, end })
        }
    }

    /// A worktree-line target.
    pub fn worktree_line(path: &str, line: u32) -> (t: Target)
        ensures
            t matches Target::WorktreeLine { path: p, line: l } && p@ == path@ && l == line,
    {
        Target::WorktreeLine { path: copy_str(path), line }
    }

    /// A worktree-range target over `start..=end`; refused when
    /// `end < start`.
    pub fn worktree_range(path: &str, start: u32, end: u32) -> (r: Result<Target, InvertedSpan>)
        ensures
            start <= end ==> (r matches Ok(Target::WorktreeRange { path: p, start: s, end: e })
                && p@ == path@ && s == start && e == end),
            start > end ==> r == Err::<Target, InvertedSpan>(InvertedSpan { start, end }),
    {
        if start <= end {
            Ok(Target::WorktreeRange { path: copy_str(path), start, end })
        } else {
            Err(InvertedSpan { start, end })
        }
    }
}

/// One annotation: its id, anchor, classification and body text.
#[derive(Debug, Clone, PartialEq, Eq)]
pub struct Annotation {
    /// Stable id within its store.
    pub id: usize,
    /// What the annotation is anchored to.
    pub target: Target,
    /// The remark's classification.
    pub classification: Classification,
    /// The body text (may span several lines).
    pub body: String,
}

/// Why an annotation was refused.
#[derive(Debug, Clone, Copy, PartialEq, Eq)]
pub enum AnnotateError {
    /// The body was empty.
    EmptyBody,
    /// Every id is taken.
    IdsExhausted,
}

/// The session's annotations, in insertion order, with fresh ids.
#[derive(Debug, Clone, PartialEq, Eq)]
pub struct AnnotationStore {
    annotations: Vec<Annotation>,
    next_id: usize,
}

impl AnnotationStore {
    /// Every id is below `next_id`, and ids are distinct.
    pub closed spec fn wf(&self) -> bool {
        &&& forall|i: int| 0 <= i < self.annotations@.len() ==> #[trigger] self.annotations@[i].id < self.next_id
        &&& forall|i: int, j: int|
            0 <= i < j < self.annotations@.len() ==> #[trigger] self.annotations@[i].id
                != #[trigger] self.annotations@[j].id
    }

    /// The annotations, in insertion order.
    pub closed spec fn items(&self) -> Seq<Annotation> {
        self.annotations@
    }

    /// An empty store.
    pub fn new() -> (s: AnnotationStore)
        ensures
            s.wf(),
            s.items().len() == 0,
    {
        AnnotationStore { annotations: Vec::new(), next_id: 0 }
    }

    /// Adds an annotation with a fresh id, returning that id; refuses an
    /// empty body.
    pub fn add(&mut self, target: Target, classification: Classification, body: &str) -> (r: Result<
        usize,
        AnnotateError,
    >)
        requires
            old(self).wf(),
        ensures
            final(self).wf(),
            body@.len() == 0 ==> r == Err::<usize, AnnotateError>(AnnotateError::EmptyBody)
                && final(self).items() == old(self).items(),
            r matches Ok(id) ==> {
                &&& body@.len() > 0
                &&& final(self).items().len() == old(self).items().len() + 1
                &&& final(self).items().drop_last() == old(self).items()
                &&& final(self).items().last().id == id
                &&& final(self).items().last().target == target
                &&& final(self).items().last().classification == classification
                &&& final(self).items().last().body@ == body@
                &&& forall|i: int| 0 <= i < old(self).items().len() ==> #[trigger] old(self).items()[i].id != id
            },
            r matches Err(e) ==> final(self).items() == old(self).items() && (e
                == AnnotateError::EmptyBody <==> body@.len() == 0),
    {
        if body.is_empty() {
            return Err(AnnotateError::EmptyBody);
        }
        if self.next_id == usize::MAX {
            return Err(AnnotateError::IdsExhausted);
        }
        let id = self.next_id;
        let ghost before = self.annotations@;
        self.annotations.push(Annotation { id, target, classification, body: copy_str(body) });
        self.next_id = id + 1;
        assert(self.annotations@.drop_last() =~= before);
        proof {
            id_ok(self, before, id);
        }
        Ok(id)
    }

    /// Every annotation, in insertion order.
    pub fn all(&self) -> (v: &Vec<Annotation>)
        ensures
            v@ == self.items(),
    {
        &self.annotations
    }

    /// The number of annotations.
    pub fn len(&self) -> (n: usize)
        ensures
            n == self.items().len(),
    {
        self.annotations.len()
    }
}

proof fn id_ok(s: &AnnotationStore, before: Seq<Annotation>, id: usize)
    requires
        s.annotations@.drop_last() == before,
        s.annotations@.len() == before.len() + 1,
        s.annotations@.last().id == id,
        s.next_id == id + 1,
        forall|i: int| 0 <= i < before.len() ==> #[trigger] before[i].id < id,
        forall|i: int, j: int| 0 <= i < j < before.len() ==> #[trigger] before[i].id != #[trigger] before[j].id,
    ensures
        s.wf(),
{
    assert forall|i: int| 0 <= i < s.annotations@.len() implies #[trigger] s.annotations@[i].id < s.next_id by {
        if i < before.len() {
            assert(s.annotations@[i] == before[i]);
        }
    }
    assert forall|i: int, j: int|
        0 <= i < j < s.annotations@.len() implies #[trigger] s.annotations@[i].id
            != #[trigger] s.annotations@[j].id by {
        assert(s.annotations@[i] == before[i]);
        if j < before.len() {
            assert(s.annotations@[j] == before[j]);
        }
    }
}

} // verus!
