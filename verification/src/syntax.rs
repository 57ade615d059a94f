//! Where the syntax highlighter reads one side's whole-file content from,
//! for each diff target: the working-tree file, or a blob `git show` reads
//! at `<rev>:<path>`.
use vstd::prelude::*;

use crate::annotate::Side;
use crate::diff::{FileDiff, LineOrigin};
use crate::git::DiffTarget;
use crate::stage_ops::StageOps;
use crate::text::{chars_of, push_char, string_of};

verus! {

/// Where to read one side's whole-file content from for highlighting.
#[derive(Debug, Clone, PartialEq, Eq, Hash)]
pub enum ContentSource {
    /// The live working-tree file at this repo-relative path.
    Worktree { path: String },
    /// The blob at `<rev>:<path>`.
    Show { rev: String, path: String },
}

/// A [`ContentSource`] as plain values.
pub enum SourceV {
    Worktree { path: Seq<char> },
    Show { rev: Seq<char>, path: Seq<char> },
}

impl View for ContentSource {
    type V = SourceV;

    open spec fn view(&self) -> SourceV {
        match self {
            ContentSource::Worktree { path } => SourceV::Worktree { path: path@ },
            ContentSource::Show { rev, path } => SourceV::Show { rev: rev@, path: path@ },
        }
    }
}

/// The path a source reads.
pub open spec fn source_path(s: SourceV) -> Seq<char> {
    match s {
        SourceV::Worktree { path } => path,
        SourceV::Show { path, .. } => path,
    }
}

impl ContentSource {
    /// The repo-relative path this source reads, whichever variant it is.
    pub fn path(&self) -> (p: &String)
        ensures
            p@ == source_path(self@),
    {
        match self {
            ContentSource::Worktree { path } => path,
            ContentSource::Show { path, .. } => path,
        }
    }
}

/// A worktree source for `path`.
pub fn worktree(path: &str) -> (s: ContentSource)
    ensures
        s@ == (SourceV::Worktree { path: path@ }),
{
    ContentSource::Worktree { path: crate::annotate::copy_str(path) }
}

/// A `git show` source for `<rev>:<path>`.
pub fn show(rev: &str, path: &str) -> (s: ContentSource)
    ensures
        s@ == (SourceV::Show { rev: rev@, path: path@ }),
{
    ContentSource::Show { rev: crate::annotate::copy_str(rev), path: crate::annotate::copy_str(path) }
}

/// Whether `s` holds `..` at `i`.
pub open spec fn dotdot_at(s: Seq<char>, i: int) -> bool {
    0 <= i && i + 1 < s.len() && s[i] == '.' && s[i + 1] == '.'
}

/// The start of the last `..` in `s`, if any.
pub open spec fn last_dotdot(s: Seq<char>) -> Option<int> {
    if exists|i: int| dotdot_at(s, i) {
        Some(choose|i: int| dotdot_at(s, i) && forall|j: int| i < j ==> !dotdot_at(s, j))
    } else {
        None
    }
}

/// `s` without its trailing dots.
pub open spec fn trim_end_dots(s: Seq<char>) -> Seq<char>
    decreases s.len(),
{
    if s.len() > 0 && s.last() == '.' {
        trim_end_dots(s.drop_last())
    } else {
        s
    }
}

/// `s` without its leading dots.
pub open spec fn trim_start_dots(s: Seq<char>) -> Seq<char>
    decreases s.len(),
{
    if s.len() > 0 && s[0] == '.' {
        trim_start_dots(s.drop_first())
    } else {
        s
    }
}

/// A range expression split at its last `..`, with the dots around the
/// split trimmed off each piece; none for a bare ref.
pub open spec fn split_range_spec(r: Seq<char>) -> Option<(Seq<char>, Seq<char>)> {
    match last_dotdot(r) {
        Some(i) => Some((trim_end_dots(r.take(i)), trim_start_dots(r.skip(i + 2)))),
        None => None,
    }
}

/// Pins `last_dotdot` to a found last index, or to none.
proof fn lemma_last_dotdot(s: Seq<char>, r: Option<int>)
    requires
        r matches Some(i) ==> dotdot_at(s, i) && forall|j: int| i < j ==> !dotdot_at(s, j),
        r is None ==> forall|j: int| !dotdot_at(s, j),
    ensures
        last_dotdot(s) == r,
{
    if let Some(i) = r {
        let c = choose|k: int| dotdot_at(s, k) && forall|j: int| k < j ==> !dotdot_at(s, j);
        assert(dotdot_at(s, c) && forall|j: int| c < j ==> !dotdot_at(s, j));
        if c < i {
            assert(!dotdot_at(s, i));
        }
        if i < c {
            assert(!dotdot_at(s, c));
        }
    }
}

/// The chars `cs[a..b]` without their trailing dots.
fn trimmed_end(cs: &Vec<char>, a: usize, b: usize) -> (out: String)
    requires
        a <= b <= cs@.len(),
    ensures
        out@ == trim_end_dots(cs@.subrange(a as int, b as int)),
{
    let mut e = b;
    while e > a && cs[e - 1] == '.'
        invariant
            a <= e <= b <= cs@.len(),
            trim_end_dots(cs@.subrange(a as int, e as int)) == trim_end_dots(
                cs@.subrange(a as int, b as int),
            ),
        decreases e - a,
    {
        assert(cs@.subrange(a as int, e as int).drop_last() =~= cs@.subrange(a as int, e - 1));
        e = e - 1;
    }
    let mut out = String::new();
    let mut k = a;
    while k < e
        invariant
            a <= k <= e <= cs@.len(),
            out@ == cs@.subrange(a as int, k as int),
        decreases e - k,
    {
        push_char(&mut out, cs[k]);
        k = k + 1;
        assert(out@ =~= cs@.subrange(a as int, k as int));
    }
    out
}

/// The chars `cs[a..b]` without their leading dots.
fn trimmed_start(cs: &Vec<char>, a: usize, b: usize) -> (out: String)
    requires
        a <= b <= cs@.len(),
    ensures
        out@ == trim_start_dots(cs@.subrange(a as int, b as int)),
{
    let mut s = a;
    while s < b && cs[s] == '.'
        invariant
            a <= s <= b <= cs@.len(),
            trim_start_dots(cs@.subrange(s as int, b as int)) == trim_start_dots(
                cs@.subrange(a as int, b as int),
            ),
        decreases b - s,
    {
        assert(cs@.subrange(s as int, b as int).drop_first() =~= cs@.subrange(s + 1, b as int));
        s = s + 1;
    }
    let mut out = String::new();
    let mut k = s;
    while k < b
        invariant
            s <= k <= b <= cs@.len(),
            out@ == cs@.subrange(s as int, k as int),
        decreases b - k,
    {
        push_char(&mut out, cs[k]);
        k = k + 1;
        assert(out@ =~= cs@.subrange(s as int, k as int));
    }
    out
}

/// Splits a range expression at its last `..` (see [`split_range_spec`]).
pub fn split_range(r: &str) -> (out: Option<(String, String)>)
    ensures
        match out {
            Some((left, right)) => split_range_spec(r@) == Some((left@, right@)),
            None => split_range_spec(r@) is None,
        },
{
    let cs = chars_of(r);
    let n = cs.len();
    if n < 2 {
        proof {
            lemma_last_dotdot(r@, None);
        }
        return None;
    }
    let mut i = n - 1;
    // Scan down for the last `..`.
    loop
        invariant
            cs@ == r@,
            n == cs@.len(),
            n >= 2,
            1 <= i <= n - 1,
            forall|j: int| i <= j ==> !dotdot_at(r@, j),
        decreases i,
    {
        let k = i - 1;
        if cs[k] == '.' && cs[k + 1] == '.' {
            proof {
                lemma_last_dotdot(r@, Some(k as int));
                assert(r@.take(k as int) =~= cs@.subrange(0, k as int));
                assert(r@.skip(k + 2) =~= cs@.subrange(k + 2, n as int));
            }
            let left = trimmed_end(&cs, 0, k);
            let right = trimmed_start(&cs, k + 2, n);
            return Some((left, right));
        }
        if k == 0 {
            proof {
                assert forall|j: int| !dotdot_at(r@, j) by {
                    if j < 0 {
                    } else if j >= 1 {
                    } else {
                        assert(!dotdot_at(r@, 0));
                    }
                }
                lemma_last_dotdot(r@, None);
            }
            return None;
        }
        i = k;
    }
}

/// The blob spec `<rev>^` names: `rev`'s parent.
pub open spec fn parent_rev(rev: Seq<char>) -> Seq<char> {
    rev.push('^')
}

/// Where `side`'s whole-file content of `path` is read from under `target`:
/// - new side: the worktree file for the working tree, the index blob
///   (`:0`) when staged, the right-hand ref of a range (the worktree when it
///   is empty or the range is a bare ref), the commit itself, the reviewed
///   branch, or the viewed file's own path;
/// - old side, read at `old_path` when the file was renamed: the index blob
///   for the working tree, `HEAD` when staged, the left-hand ref of a range
///   (the ref itself when bare), the commit's parent, the review's base, or
///   the worktree file in the file view.
pub open spec fn content_source_spec(
    target: DiffTarget,
    side: Side,
    path: Seq<char>,
    old_path: Option<Seq<char>>,
) -> SourceV {
    match side {
        Side::New => match target {
            DiffTarget::WorkingTree => SourceV::Worktree { path },
            DiffTarget::Staged => SourceV::Show { rev: ":0"@, path },
            DiffTarget::Range(r) => match split_range_spec(r@) {
                Some((_, right)) => if right.len() > 0 {
                    SourceV::Show { rev: right, path }
                } else {
                    SourceV::Worktree { path }
                },
                None => SourceV::Worktree { path },
            },
            DiffTarget::Commit(rev) => SourceV::Show { rev: rev@, path },
            DiffTarget::Review { branch, .. } => SourceV::Show { rev: branch@, path },
            DiffTarget::File(p) => SourceV::Worktree { path: p@ },
        },
        Side::Old => {
            let src = match old_path {
                Some(o) => o,
                None => path,
            };
            match target {
                DiffTarget::WorkingTree => SourceV::Show { rev: ":0"@, path: src },
                DiffTarget::Staged => SourceV::Show { rev: "HEAD"@, path: src },
                DiffTarget::Range(r) => match split_range_spec(r@) {
                    Some((left, _)) => SourceV::Show { rev: left, path: src },
                    None => SourceV::Show { rev: r@, path: src },
                },
                DiffTarget::Commit(rev) => SourceV::Show { rev: parent_rev(rev@), path: src },
                DiffTarget::Review { base, .. } => SourceV::Show { rev: base@, path: src },
                DiffTarget::File(_) => SourceV::Worktree { path: src },
            }
        },
    }
}

/// The old side of a diff is read at the file's pre-rename path when it
/// was renamed, and at its path otherwise, whatever the target.
pub proof fn lemma_old_side_reads_the_old_path(
    target: DiffTarget,
    path: Seq<char>,
    old_path: Option<Seq<char>>,
)
    ensures
        source_path(content_source_spec(target, Side::Old, path, old_path)) == match old_path {
            Some(o) => o,
            None => path,
        },
{
}

/// The new side of a diff is read at the file's current path, whatever the
/// target, except a single-file target, which names its own path.
pub proof fn lemma_new_side_reads_the_current_path(
    target: DiffTarget,
    path: Seq<char>,
    old_path: Option<Seq<char>>,
)
    ensures
        !(target is File) ==> source_path(content_source_spec(target, Side::New, path, old_path)) == path,
{
}

/// The view of an optional path.
pub open spec fn opt_path_view(o: Option<&str>) -> Option<Seq<char>> {
    match o {
        Some(s) => Some(s@),
        None => None,
    }
}

/// Derives where to source `side`'s whole-file content for `path` under
/// `target` (see [`content_source_spec`]).
pub fn content_source(target: &DiffTarget, side: Side, path: &str, old_path: Option<&str>) -> (s:
    ContentSource)
    ensures
        s@ == content_source_spec(*target, side, path@, opt_path_view(old_path)),
{
    match side {
        Side::New => match target {
            DiffTarget::WorkingTree => worktree(path),
            DiffTarget::Staged => {
                proof {
                    reveal_strlit(":0");
                }
                show(":0", path)
            },
            DiffTarget::Range(r) => match split_range(r.as_str()) {
                Some((_, right)) => {
                    if !right.as_str().is_empty() {
                        show(right.as_str(), path)
                    } else {
                        worktree(path)
                    }
                },
                None => worktree(path),
            },
            DiffTarget::Commit(rev) => show(rev.as_str(), path),
            DiffTarget::Review { branch, .. } => show(branch.as_str(), path),
            DiffTarget::File(p) => worktree(p.as_str()),
        },
        Side::Old => {
            let src: &str = match old_path {
                Some(o) => o,
                None => path,
            };
            match target {
                DiffTarget::WorkingTree => {
                    proof {
                        reveal_strlit(":0");
                    }
                    show(":0", src)
                },
                DiffTarget::Staged => {
                    proof {
                        reveal_strlit("HEAD");
                    }
                    show("HEAD", src)
                },
                DiffTarget::Range(r) => match split_range(r.as_str()) {
                    Some((left, _)) => show(left.as_str(), src),
                    None => show(r.as_str(), src),
                },
                DiffTarget::Commit(rev) => {
                    let mut parent = rev.clone();
                    push_char(&mut parent, '^');
                    show(parent.as_str(), src)
                },
                DiffTarget::Review { base, .. } => show(base.as_str(), src),
                DiffTarget::File(_) => worktree(src),
            }
        },
    }
}

/// The content source for one side of `path`, or none when that side has no
/// content: a synthesized untracked file reads its new side from the
/// worktree whatever the target, and has no old side.
pub open spec fn source_for_spec(
    target: DiffTarget,
    side: Side,
    path: Seq<char>,
    old_path: Option<Seq<char>>,
    synthetic: bool,
) -> Option<SourceV> {
    if synthetic {
        match side {
            Side::New => Some(SourceV::Worktree { path }),
            Side::Old => None,
        }
    } else {
        Some(content_source_spec(target, side, path, old_path))
    }
}

/// The content source for one side of `path` (see [`source_for_spec`]).
pub fn source_for(
    target: &DiffTarget,
    side: Side,
    path: &str,
    old_path: Option<&str>,
    synthetic: bool,
) -> (s: Option<ContentSource>)
    ensures
        match s {
            Some(c) => source_for_spec(*target, side, path@, opt_path_view(old_path), synthetic)
                == Some(c@),
            None => source_for_spec(
                *target,
                side,
                path@,
                opt_path_view(old_path),
                synthetic,
            ) is None,
        },
{
    if synthetic {
        match side {
            Side::New => Some(worktree(path)),
            Side::Old => None,
        }
    } else {
        Some(content_source(target, side, path, old_path))
    }
}

/// Whether a line of origin `o` lives on `side`.
pub open spec fn on_side(o: LineOrigin, side: Side) -> bool {
    match side {
        Side::Old => o == LineOrigin::Removed,
        Side::New => o == LineOrigin::Added || o == LineOrigin::Context,
    }
}

/// Whether `file` has at least one line on `side`.
pub open spec fn side_in_use_spec(file: FileDiff, side: Side) -> bool {
    exists|h: int, l: int|
        0 <= h < file.hunks@.len() && 0 <= l < file.hunks@[h].lines@.len() && on_side(
            #[trigger] file.hunks@[h].lines@[l].origin,
            side,
        )
}

/// Whether `file` has at least one line on `side` (removed lines live only
/// on the old side; added and context lines on the new side).
pub fn side_in_use(file: &FileDiff, side: Side) -> (b: bool)
    ensures
        b == side_in_use_spec(*file, side),
{
    let mut h: usize = 0;
    while h < file.hunks.len()
        invariant
            h <= file.hunks@.len(),
            forall|i: int, l: int|
                0 <= i < h && 0 <= l < file.hunks@[i].lines@.len() ==> !on_side(
                    #[trigger] file.hunks@[i].lines@[l].origin,
                    side,
                ),
        decreases file.hunks.len() - h,
    {
        let lines = &file.hunks[h].lines;
        let mut l: usize = 0;
        while l < lines.len()
            invariant
                h < file.hunks@.len(),
                *lines == file.hunks@[h as int].lines,
                l <= lines@.len(),
                forall|k: int| 0 <= k < l ==> !on_side(#[trigger] lines@[k].origin, side),
            decreases lines.len() - l,
        {
            let hit = match side {
                Side::Old => matches!(lines[l].origin, LineOrigin::Removed),
                Side::New => matches!(lines[l].origin, LineOrigin::Added | LineOrigin::Context),
            };
            if hit {
                assert(on_side(file.hunks@[h as int].lines@[l as int].origin, side));
                return true;
            }
            l = l + 1;
        }
        h = h + 1;
    }
    false
}

/// The text `bytes` decode to as UTF-8, none when they are not valid
/// UTF-8 (what `String::from_utf8` decides).
pub open spec fn utf8_decode(bytes: Seq<u8>) -> Option<Seq<char>> {
    if vstd::utf8::valid_utf8(bytes) {
        Some(vstd::utf8::decode_utf8(bytes))
    } else {
        None
    }
}

/// The view of an optional string.
pub open spec fn opt_text(o: Option<String>) -> Option<Seq<char>> {
    match o {
        Some(s) => Some(s@),
        None => None,
    }
}

/// Decodes `bytes` as UTF-8 with `String::from_utf8`: `Ok` exactly when
/// the bytes are valid UTF-8, and then the string whose characters they
/// encode (see [`utf8_decode`]), none otherwise.
#[verifier::external_body]
pub(crate) fn decode_utf8(bytes: Vec<u8>) -> (r: Option<String>)
    ensures
        opt_text(r) == utf8_decode(bytes@),
{
    String::from_utf8(bytes).ok()
}

/// The spec `git show` is asked for a blob: `<rev>:<path>`.
pub fn show_spec(rev: &str, path: &str) -> (s: String)
    ensures
        s@ == rev@ + seq![':'] + path@,
{
    let mut s = crate::annotate::copy_str(rev);
    push_char(&mut s, ':');
    crate::text::push_all(&mut s, path);
    s
}

/// The text of a worktree read that gave back `bytes`: the bytes decoded
/// as UTF-8; none for a failed read or invalid UTF-8.
pub fn content_from_bytes(bytes: Option<Vec<u8>>) -> (r: Option<String>)
    ensures
        match bytes {
            Some(b) => opt_text(r) == utf8_decode(b@),
            None => r is None,
        },
{
    match bytes {
        Some(b) => decode_utf8(b),
        None => None,
    }
}

/// `r` is what a worktree read that gave back `bytes` yields (see
/// [`content_from_bytes`]).
pub open spec fn content_read(bytes: Option<Vec<u8>>, r: Option<String>) -> bool {
    match bytes {
        Some(b) => opt_text(r) == utf8_decode(b@),
        None => r is None,
    }
}

/// What the content of `source` is, read through `ops`: the working-tree
/// file at its path (see [`content_from_bytes`]), or what `git show`
/// prints for [`show_spec`] of its revision and path; none on any failure,
/// so that highlighting degrades silently.
pub fn fetch_content<O: StageOps>(ops: &O, source: &ContentSource) -> (r: Option<String>)
    ensures
        source is Worktree ==> exists|bytes: Option<Vec<u8>>| #[trigger] content_read(bytes, r),
{
    match source {
        ContentSource::Worktree { path } => {
            let bytes = ops.read_worktree_file(path.as_str());
            let ghost b = bytes;
            let r = content_from_bytes(bytes);
            assert(content_read(b, r));
            r
        },
        ContentSource::Show { rev, path } => {
            let spec = show_spec(rev.as_str(), path.as_str());
            ops.show_file(spec.as_str())
        },
    }
}

} // verus!
