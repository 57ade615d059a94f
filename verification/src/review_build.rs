//! Building a review of a diff target: the target's parsed files, plus in
//! a working-tree review the untracked files (as all-added entries) and
//! the fully staged files (from the staged diff, or as header-only
//! placeholders), all in one list ordered by path alone — so staging or
//! unstaging a file never moves it — with the raw patch each came from.
use vstd::prelude::*;

use crate::diff::{DiffParseError, FileChangeKind, FileDiff, Hunk};
use crate::git::{ChangeKind, DiffTarget, FileStatus, GitError, RawFilePatch, clone_opt_string};
use crate::stage_ops::{
    ReviewError,
    ReviewSnapshot,
    StageOps,
    StagedState,
    kind_from_staged_code,
    staged_from_status,
    staged_kind,
    staged_state,
    staged_states_from_status,
    state_of,
    staged_files_view,
    staged_list,
    states_map,
};
use crate::syntax::{decode_utf8, utf8_decode};
use crate::text::chars_of;

verus! {

/// A parsed file as plain values.
pub struct FileDiffV {
    pub path: String,
    pub old_path: Option<String>,
    pub kind: FileChangeKind,
    pub is_binary: bool,
    pub hunks: Seq<Hunk>,
}

/// The view of a parsed file.
pub open spec fn fd_view(f: FileDiff) -> FileDiffV {
    FileDiffV {
        path: f.path,
        old_path: f.old_path,
        kind: f.kind,
        is_binary: f.is_binary,
        hunks: f.hunks@,
    }
}

/// One review entry: a parsed file and the raw patch it came from, if any.
pub type Entry = (FileDiff, Option<RawFilePatch>);

/// One review entry as plain values.
pub type EntryV = (FileDiffV, Option<RawFilePatch>);

/// The view of an entry.
pub open spec fn entry_view(e: Entry) -> EntryV {
    (fd_view(e.0), e.1)
}

/// The views of `es`.
pub open spec fn entries_view(es: Seq<Entry>) -> Seq<EntryV> {
    es.map_values(|e: Entry| entry_view(e))
}

/// The path an entry is ordered by.
pub open spec fn key(e: EntryV) -> Seq<char> {
    e.0.path@
}

/// `a` sorts strictly before `b`: lexicographic order on characters, a
/// proper prefix first (the order of the strings' UTF-8 bytes).
pub open spec fn path_lt(a: Seq<char>, b: Seq<char>) -> bool
    decreases a.len(),
{
    if b.len() == 0 {
        false
    } else if a.len() == 0 {
        true
    } else if a[0] != b[0] {
        (a[0] as u32) < (b[0] as u32)
    } else {
        path_lt(a.drop_first(), b.drop_first())
    }
}

proof fn lemma_lt_irreflexive(a: Seq<char>)
    ensures
        !path_lt(a, a),
    decreases a.len(),
{
    if a.len() > 0 {
        lemma_lt_irreflexive(a.drop_first());
    }
}

proof fn lemma_lt_transitive(a: Seq<char>, b: Seq<char>, c: Seq<char>)
    requires
        path_lt(a, b),
        path_lt(b, c),
    ensures
        path_lt(a, c),
    decreases a.len(),
{
    if a.len() > 0 && b.len() > 0 && c.len() > 0 && a[0] == b[0] && b[0] == c[0] {
        lemma_lt_transitive(a.drop_first(), b.drop_first(), c.drop_first());
    }
}

proof fn lemma_lt_total(a: Seq<char>, b: Seq<char>)
    ensures
        path_lt(a, b) || path_lt(b, a) || a == b,
    decreases a.len(),
{
    if a.len() > 0 && b.len() > 0 && a[0] == b[0] {
        lemma_lt_total(a.drop_first(), b.drop_first());
        if a.drop_first() == b.drop_first() {
            assert(a =~= seq![a[0]] + a.drop_first());
            assert(b =~= seq![b[0]] + b.drop_first());
        }
    } else if a.len() == 0 && b.len() == 0 {
        assert(a =~= b);
    } else if a.len() > 0 && b.len() > 0 {
        lemma_char_u32_injective(a[0], b[0]);
    }
}

proof fn lemma_char_u32_injective(c: char, d: char)
    ensures
        (c as u32) == (d as u32) ==> c == d,
{
}

/// `a` sorts no later than `b`.
pub open spec fn path_le(a: Seq<char>, b: Seq<char>) -> bool {
    !path_lt(b, a)
}

proof fn lemma_le_transitive(a: Seq<char>, b: Seq<char>, c: Seq<char>)
    requires
        path_le(a, b),
        path_le(b, c),
    ensures
        path_le(a, c),
{
    if path_lt(c, a) {
        lemma_lt_total(a, b);
        lemma_lt_total(b, c);
        if a == b {
        } else if b == c {
        } else {
            lemma_lt_transitive(a, b, c);
            lemma_lt_transitive(c, a, b);
            lemma_lt_irreflexive(b);
        }
    }
}

/// Whether `s` is ordered by path.
pub open spec fn sorted_by_path(s: Seq<EntryV>) -> bool {
    forall|i: int, j: int| 0 <= i < j < s.len() ==> path_le(key(s[i]), key(s[j]))
}

/// Where an entry with path `p` goes into `s`: after every entry that
/// does not sort after it, counted from the end.
pub open spec fn upper_bound(s: Seq<EntryV>, p: Seq<char>) -> int
    decreases s.len(),
{
    if s.len() == 0 {
        0
    } else if path_lt(p, key(s.last())) {
        upper_bound(s.drop_last(), p)
    } else {
        s.len() as int
    }
}

/// `s` with `x` inserted after the entries that do not sort after it.
pub open spec fn insert_by_path(s: Seq<EntryV>, x: EntryV) -> Seq<EntryV> {
    s.insert(upper_bound(s, key(x)), x)
}

/// `s` stably sorted by path: each entry inserted in turn, after every
/// earlier entry that does not sort after it, so entries with equal paths
/// keep their order.
pub open spec fn sort_by_path(s: Seq<EntryV>) -> Seq<EntryV>
    decreases s.len(),
{
    if s.len() == 0 {
        s
    } else {
        insert_by_path(sort_by_path(s.drop_last()), s.last())
    }
}

proof fn lemma_upper_bound(s: Seq<EntryV>, p: Seq<char>)
    requires
        sorted_by_path(s),
    ensures
        0 <= upper_bound(s, p) <= s.len(),
        forall|i: int| 0 <= i < upper_bound(s, p) ==> path_le(key(s[i]), p),
        forall|i: int| upper_bound(s, p) <= i < s.len() ==> path_lt(p, key(s[i])),
    decreases s.len(),
{
    if s.len() > 0 {
        let k = upper_bound(s, p);
        if path_lt(p, key(s.last())) {
            lemma_upper_bound(s.drop_last(), p);
            assert forall|i: int| k <= i < s.len() implies path_lt(p, key(s[i])) by {
                if i < s.len() - 1 {
                    assert(s.drop_last()[i] == s[i]);
                }
            }
            assert forall|i: int| 0 <= i < k implies path_le(key(s[i]), p) by {
                assert(s.drop_last()[i] == s[i]);
            }
        } else {
            assert forall|i: int| 0 <= i < k implies path_le(key(s[i]), p) by {
                if i < s.len() - 1 {
                    lemma_le_transitive(key(s[i]), key(s.last()), p);
                }
            }
        }
    }
}

proof fn lemma_insert_sorted(s: Seq<EntryV>, x: EntryV)
    requires
        sorted_by_path(s),
    ensures
        sorted_by_path(insert_by_path(s, x)),
        insert_by_path(s, x).to_multiset() == s.to_multiset().insert(x),
{
    let k = upper_bound(s, key(x));
    lemma_upper_bound(s, key(x));
    let t = insert_by_path(s, x);
    assert forall|i: int, j: int| 0 <= i < j < t.len() implies path_le(key(t[i]), key(t[j])) by {
        if j < k {
        } else if j == k {
        } else if i < k {
            if path_lt(key(t[j]), key(x)) {
                lemma_lt_transitive(key(x), key(t[j]), key(x));
                lemma_lt_irreflexive(key(x));
            }
            lemma_le_transitive(key(t[i]), key(x), key(t[j]));
        } else if i == k {
            if path_lt(key(t[j]), key(x)) {
                lemma_lt_transitive(key(x), key(t[j]), key(x));
                lemma_lt_irreflexive(key(x));
            }
        } else {
        }
    }
    s.insert_ensures(k, x);
    assert(t.remove(k) =~= s);
    t.to_multiset_ensures();
    assert(t[k] == x);
    assert(t.contains(x));
    assert(t.to_multiset() =~= s.to_multiset().insert(x));
}

/// Sorting by path orders the entries by path and loses or adds none.
pub proof fn lemma_sort_by_path(s: Seq<EntryV>)
    ensures
        sorted_by_path(sort_by_path(s)),
        sort_by_path(s).to_multiset() == s.to_multiset(),
    decreases s.len(),
{
    if s.len() > 0 {
        lemma_sort_by_path(s.drop_last());
        lemma_insert_sorted(sort_by_path(s.drop_last()), s.last());
        assert(s =~= s.drop_last().push(s.last()));
        s.drop_last().to_multiset_ensures();
    }
}

/// Whether `a` sorts strictly before `b` (see [`path_lt`]).
pub fn path_less(a: &str, b: &str) -> (r: bool)
    ensures
        r == path_lt(a@, b@),
{
    let ca = chars_of(a);
    let cb = chars_of(b);
    let mut i: usize = 0;
    assert(ca@.skip(0) =~= ca@);
    assert(cb@.skip(0) =~= cb@);
    while i < ca.len() && i < cb.len() && ca[i] == cb[i]
        invariant
            i <= ca@.len(),
            i <= cb@.len(),
            ca@ == a@,
            cb@ == b@,
            path_lt(ca@, cb@) == path_lt(ca@.skip(i as int), cb@.skip(i as int)),
        decreases ca.len() - i,
    {
        proof {
            assert(ca@.skip(i as int).drop_first() =~= ca@.skip(i + 1));
            assert(cb@.skip(i as int).drop_first() =~= cb@.skip(i + 1));
        }
        i = i + 1;
    }
    if i == cb.len() {
        assert(cb@.skip(i as int).len() == 0);
        false
    } else if i == ca.len() {
        assert(ca@.skip(i as int).len() == 0);
        true
    } else {
        let x = ca[i];
        let y = cb[i];
        assert(ca@.skip(i as int)[0] == x);
        assert(cb@.skip(i as int)[0] == y);
        (x as u32) < (y as u32)
    }
}

/// Sorts `v` stably by path (see [`sort_by_path`]).
pub fn sort_entries(v: Vec<Entry>) -> (out: Vec<Entry>)
    ensures
        entries_view(out@) == sort_by_path(entries_view(v@)),
{
    let ghost orig = entries_view(v@);
    let mut rest = v;
    let mut out: Vec<Entry> = Vec::new();
    let ghost mut k: int = 0;
    assert(orig.take(0) =~= Seq::<EntryV>::empty());
    assert(orig.skip(0) =~= orig);
    while rest.len() > 0
        invariant
            0 <= k <= orig.len(),
            orig.len() == k + rest@.len(),
            entries_view(out@) == sort_by_path(orig.take(k)),
            entries_view(rest@) == orig.skip(k),
        decreases rest.len(),
    {
        let ghost r0 = rest@;
        let x = rest.remove(0);
        let ghost xv = entry_view(x);
        let ghost ov = entries_view(out@);
        proof {
            assert(entries_view(r0)[0] == xv);
            assert(orig.skip(k)[0] == xv);
            assert(rest@ =~= r0.subrange(1, r0.len() as int));
            assert forall|i: int| 0 <= i < rest@.len() implies entries_view(rest@)[i] == orig.skip(k + 1)[i] by {
                assert(rest@[i] == r0[i + 1]);
                assert(entries_view(r0)[i + 1] == orig.skip(k)[i + 1]);
            }
            assert(entries_view(rest@) =~= orig.skip(k + 1));
        }
        let mut j: usize = out.len();
        assert(ov.take(j as int) =~= ov);
        while j > 0 && path_less(x.0.path.as_str(), out[j - 1].0.path.as_str())
            invariant
                j <= out@.len(),
                ov == entries_view(out@),
                xv == entry_view(x),
                upper_bound(ov, key(xv)) == upper_bound(ov.take(j as int), key(xv)),
            decreases j,
        {
            proof {
                assert(ov.take(j as int).last() == entry_view(out@[j - 1]));
                assert(ov.take(j as int).drop_last() =~= ov.take(j - 1));
            }
            j = j - 1;
        }
        proof {
            if j > 0 {
                assert(ov.take(j as int).last() == entry_view(out@[j - 1]));
            } else {
                assert(ov.take(0) =~= Seq::<EntryV>::empty());
            }
            assert(upper_bound(ov, key(xv)) == j);
        }
        out.insert(j, x);
        proof {
            assert(entries_view(out@) =~= ov.insert(j as int, xv));
            let t = orig.take(k + 1);
            assert(t.drop_last() =~= orig.take(k));
            assert(t.last() == xv);
            k = k + 1;
        }
    }
    proof {
        assert(orig.take(k) =~= orig);
    }
    out
}

/// A patch parser the review can rely on: it takes every patch, and gives
/// one answer per patch.
pub open spec fn parser_ok<P: Fn(&RawFilePatch) -> Result<FileDiff, DiffParseError>>(parse: P) -> bool {
    &&& forall|p: &RawFilePatch| #[trigger] parse.requires((p,))
    &&& forall|p: &RawFilePatch, r1: Result<FileDiff, DiffParseError>, r2: Result<FileDiff, DiffParseError>|
        #[trigger] parse.ensures((p,), r1) && #[trigger] parse.ensures((p,), r2) ==> r1 == r2
}

/// What `parse` gives for `p`.
pub open spec fn parsed<P: Fn(&RawFilePatch) -> Result<FileDiff, DiffParseError>>(
    parse: P,
    p: RawFilePatch,
) -> Result<FileDiff, DiffParseError> {
    choose|r: Result<FileDiff, DiffParseError>| parse.ensures((&p,), r)
}

/// A builder of an untracked file's all-added entry the review can rely
/// on: it takes every path and text, and its answer depends on the text's
/// characters alone.
pub open spec fn synth_ok<S: Fn(String, String) -> FileDiff>(synth: S) -> bool {
    &&& forall|path: String, text: String| #[trigger] synth.requires((path, text))
    &&& forall|path: String, t1: String, t2: String, f1: FileDiff, f2: FileDiff|
        #[trigger] synth.ensures((path, t1), f1) && #[trigger] synth.ensures((path, t2), f2) && t1@ == t2@
            ==> f1 == f2
}

/// What `synth` gives for `path` and a text of characters `text`.
pub open spec fn synthesized<S: Fn(String, String) -> FileDiff>(
    synth: S,
    path: String,
    text: Seq<char>,
) -> FileDiff {
    (choose|f: FileDiff, t: String| #![trigger synth.ensures((path, t), f)]
        t@ == text && synth.ensures((path, t), f)).0
}

/// The entries the target's raw patches parse to, in order; the first
/// parse error otherwise.
pub open spec fn diff_part<P: Fn(&RawFilePatch) -> Result<FileDiff, DiffParseError>>(
    raw: Seq<RawFilePatch>,
    parse: P,
) -> Result<Seq<EntryV>, DiffParseError>
    decreases raw.len(),
{
    if raw.len() == 0 {
        Ok(Seq::empty())
    } else {
        match diff_part(raw.drop_last(), parse) {
            Err(e) => Err(e),
            Ok(es) => match parsed(parse, raw.last()) {
                Ok(f) => Ok(es.push((fd_view(f), Some(raw.last())))),
                Err(e) => Err(e),
            },
        }
    }
}

/// The entries of the untracked files among the first `n` status entries,
/// in order: each readable one as the all-added entry its text builds, or
/// as a binary placeholder when it is not UTF-8; an unreadable one is
/// skipped.
pub open spec fn untracked_part<S: Fn(String, String) -> FileDiff>(
    st: Seq<FileStatus>,
    contents: Seq<Option<Vec<u8>>>,
    synth: S,
    n: int,
) -> Seq<EntryV>
    decreases n,
{
    if n <= 0 {
        Seq::empty()
    } else {
        let prev = untracked_part(st, contents, synth, n - 1);
        let e = st[n - 1];
        if e.kind is Untracked && n - 1 < contents.len() && contents[n - 1] is Some {
            match utf8_decode(contents[n - 1]->0@) {
                Some(text) => prev.push((fd_view(synthesized(synth, e.path, text)), None)),
                None => prev.push(
                    (
                        FileDiffV {
                            path: e.path,
                            old_path: None,
                            kind: FileChangeKind::Added,
                            is_binary: true,
                            hunks: Seq::empty(),
                        },
                        None,
                    ),
                ),
            }
        } else {
            prev
        }
    }
}

/// Whether some entry of `es` is for `path`.
pub open spec fn has_path(es: Seq<EntryV>, path: Seq<char>) -> bool {
    exists|i: int| 0 <= i < es.len() && key(es[i]) == path
}

/// The last patch of `sp` for `path` (a later one replaces an earlier).
pub open spec fn last_patch(sp: Seq<RawFilePatch>, path: Seq<char>) -> Option<RawFilePatch>
    decreases sp.len(),
{
    if sp.len() == 0 {
        None
    } else if sp.last().path@ == path {
        Some(sp.last())
    } else {
        last_patch(sp.drop_last(), path)
    }
}

/// `acc` followed by the fully staged files among the first `n` status
/// entries that no entry covers yet, in order: each from its staged patch
/// when the staged diff has one, else as a header-only placeholder; the
/// first parse error otherwise.
pub open spec fn staged_part<P: Fn(&RawFilePatch) -> Result<FileDiff, DiffParseError>>(
    st: Seq<FileStatus>,
    sp: Seq<RawFilePatch>,
    parse: P,
    acc: Seq<EntryV>,
    n: int,
) -> Result<Seq<EntryV>, DiffParseError>
    decreases n,
{
    if n <= 0 {
        Ok(acc)
    } else {
        match staged_part(st, sp, parse, acc, n - 1) {
            Err(e) => Err(e),
            Ok(prev) => {
                let e = st[n - 1];
                if state_of(e) != StagedState::Full || has_path(prev, e.path@) {
                    Ok(prev)
                } else {
                    match last_patch(sp, e.path@) {
                        Some(p) => match parsed(parse, p) {
                            Ok(f) => Ok(prev.push((fd_view(f), Some(p)))),
                            Err(err) => Err(err),
                        },
                        None => Ok(
                            prev.push(
                                (
                                    FileDiffV {
                                        path: e.path,
                                        old_path: e.orig_path,
                                        kind: staged_kind(e.staged),
                                        is_binary: false,
                                        hunks: Seq::empty(),
                                    },
                                    None,
                                ),
                            ),
                        ),
                    }
                }
            },
        }
    }
}

/// The entries of a review whose target parsed to `d`, in display order:
/// in a working-tree review (`live`) also the untracked and fully staged
/// files (see [`untracked_part`] and [`staged_part`]), all sorted by path
/// (see [`sort_by_path`]); or the first error, in the order the review meets
/// them: a failed staged diff, then a staged patch that does not parse.
pub open spec fn review_rest<
    P: Fn(&RawFilePatch) -> Result<FileDiff, DiffParseError>,
    S: Fn(String, String) -> FileDiff,
>(
    d: Seq<EntryV>,
    live: bool,
    st: Seq<FileStatus>,
    staged: Result<Seq<RawFilePatch>, GitError>,
    contents: Seq<Option<Vec<u8>>>,
    parse: P,
    synth: S,
) -> Result<Seq<EntryV>, ReviewError> {
    if !live {
        Ok(sort_by_path(d))
    } else {
        match staged {
            Err(g) => Err(ReviewError::Git(g)),
            Ok(sp) => match staged_part(
                st,
                sp,
                parse,
                d + untracked_part(st, contents, synth, st.len() as int),
                st.len() as int,
            ) {
                Err(e) => Err(ReviewError::Parse(e)),
                Ok(all) => Ok(sort_by_path(all)),
            },
        }
    }
}

/// The entries of a review (see [`review_rest`]) of a target whose raw
/// patches are `raw`; a patch that does not parse is the first error.
pub open spec fn review_spec<
    P: Fn(&RawFilePatch) -> Result<FileDiff, DiffParseError>,
    S: Fn(String, String) -> FileDiff,
>(
    live: bool,
    raw: Seq<RawFilePatch>,
    st: Seq<FileStatus>,
    staged: Result<Seq<RawFilePatch>, GitError>,
    contents: Seq<Option<Vec<u8>>>,
    parse: P,
    synth: S,
) -> Result<Seq<EntryV>, ReviewError> {
    match diff_part(raw, parse) {
        Err(e) => Err(ReviewError::Parse(e)),
        Ok(d) => review_rest(d, live, st, staged, contents, parse, synth),
    }
}

/// Every review lists its entries in path order, whichever source each came
/// from, so staging or unstaging a file never moves it.
pub proof fn lemma_review_in_path_order<
    P: Fn(&RawFilePatch) -> Result<FileDiff, DiffParseError>,
    S: Fn(String, String) -> FileDiff,
>(
    live: bool,
    raw: Seq<RawFilePatch>,
    st: Seq<FileStatus>,
    staged: Result<Seq<RawFilePatch>, GitError>,
    contents: Seq<Option<Vec<u8>>>,
    parse: P,
    synth: S,
)
    ensures
        review_spec(live, raw, st, staged, contents, parse, synth) matches Ok(es) ==> sorted_by_path(es),
{
    match diff_part(raw, parse) {
        Err(_) => {},
        Ok(d) => {
            lemma_sort_by_path(d);
            match staged {
                Err(_) => {},
                Ok(sp) => {
                    match staged_part(st, sp, parse, d + untracked_part(st, contents, synth, st.len() as int), st.len() as int) {
                        Err(_) => {},
                        Ok(all) => lemma_sort_by_path(all),
                    }
                },
            }
        },
    }
}

/// No two entries of `es` are for the same path.
pub open spec fn distinct_paths(es: Seq<EntryV>) -> bool {
    forall|i: int, j: int| 0 <= i < j < es.len() ==> key(#[trigger] es[i]) != key(#[trigger] es[j])
}

/// `parse` names each file it parses by its patch's path.
pub open spec fn parse_keeps_path<P: Fn(&RawFilePatch) -> Result<FileDiff, DiffParseError>>(parse: P) -> bool {
    forall|p: RawFilePatch| #[trigger] parsed(parse, p) matches Ok(f) ==> f.path@ == p.path@
}

/// A fully staged file is listed once: the staged pass keeps what was
/// listed before it, in place, and adds a file only where no entry covers
/// its path yet, so paths that were distinct stay distinct.
pub proof fn lemma_fully_staged_listed_once<P: Fn(&RawFilePatch) -> Result<FileDiff, DiffParseError>>(
    st: Seq<FileStatus>,
    sp: Seq<RawFilePatch>,
    parse: P,
    acc: Seq<EntryV>,
    n: int,
)
    requires
        distinct_paths(acc),
        parse_keeps_path(parse),
    ensures
        staged_part(st, sp, parse, acc, n) matches Ok(es) ==> distinct_paths(es) && acc.len() <= es.len()
            && es.subrange(0, acc.len() as int) == acc,
    decreases n,
{
    if n > 0 {
        lemma_fully_staged_listed_once(st, sp, parse, acc, n - 1);
        match staged_part(st, sp, parse, acc, n - 1) {
            Err(_) => {},
            Ok(prev) => {
                let e = st[n - 1];
                if state_of(e) != StagedState::Full || has_path(prev, e.path@) {
                } else {
                    match staged_part(st, sp, parse, acc, n) {
                        Err(_) => {},
                        Ok(es) => {
                            assert(es.len() == prev.len() + 1);
                            assert(es.drop_last() =~= prev);
                            let x = es.last();
                            assert(key(x) == e.path@) by {
                                match last_patch(sp, e.path@) {
                                    Some(p) => {
                                        lemma_last_patch_path(sp, e.path@);
                                        assert(parsed(parse, p) is Ok);
                                    },
                                    None => {},
                                }
                            }
                            assert forall|i: int, j: int| 0 <= i < j < es.len() implies key(
                                #[trigger] es[i],
                            ) != key(#[trigger] es[j]) by {
                                if j == es.len() - 1 {
                                    assert(es[i] == prev[i]);
                                    assert(es[j] == x);
                                } else {
                                    assert(es[i] == prev[i]);
                                    assert(es[j] == prev[j]);
                                }
                            }
                            assert(es.subrange(0, acc.len() as int) =~= prev.subrange(0, acc.len() as int));
                        },
                    }
                }
            },
        }
    }
}

proof fn lemma_last_patch_path(sp: Seq<RawFilePatch>, path: Seq<char>)
    ensures
        last_patch(sp, path) matches Some(p) ==> p.path@ == path,
    decreases sp.len(),
{
    if sp.len() > 0 {
        lemma_last_patch_path(sp.drop_last(), path);
    }
}

/// Reordering keeps paths distinct: a sequence holding exactly the entries
/// of one whose paths are distinct has distinct paths too.
proof fn lemma_permutation_keeps_paths_distinct(s: Seq<EntryV>, t: Seq<EntryV>)
    requires
        distinct_paths(s),
        s.to_multiset() == t.to_multiset(),
    ensures
        distinct_paths(t),
{
    assert(s.no_duplicates()) by {
        assert forall|i: int, j: int| 0 <= i < s.len() && 0 <= j < s.len() && i != j implies s[i] != s[j] by {
            if i < j {
                assert(key(s[i]) != key(s[j]));
            } else {
                assert(key(s[j]) != key(s[i]));
            }
        }
    }
    s.lemma_multiset_has_no_duplicates();
    t.lemma_multiset_has_no_duplicates_conv();
    s.to_multiset_ensures();
    t.to_multiset_ensures();
    assert forall|i: int, j: int| 0 <= i < j < t.len() implies key(#[trigger] t[i]) != key(#[trigger] t[j]) by {
        assert(t.contains(t[i]));
        assert(t.contains(t[j]));
        assert(t.to_multiset().count(t[i]) > 0);
        assert(t.to_multiset().count(t[j]) > 0);
        assert(s.to_multiset().count(t[i]) > 0);
        assert(s.to_multiset().count(t[j]) > 0);
        assert(s.contains(t[i]));
        assert(s.contains(t[j]));
        let a = choose|a: int| 0 <= a < s.len() && s[a] == t[i];
        let b = choose|b: int| 0 <= b < s.len() && s[b] == t[j];
        assert(t[i] != t[j]);
        assert(a != b);
        if a < b {
            assert(key(s[a]) != key(s[b]));
        } else {
            assert(key(s[b]) != key(s[a]));
        }
    }
}

/// A review lists each path once, provided the target's diff and the
/// untracked files did (git reports each changed path once): the fully
/// staged pass adds only uncovered paths, and ordering by path loses and
/// adds nothing.
pub proof fn lemma_review_lists_each_path_once<
    P: Fn(&RawFilePatch) -> Result<FileDiff, DiffParseError>,
    S: Fn(String, String) -> FileDiff,
>(
    live: bool,
    raw: Seq<RawFilePatch>,
    st: Seq<FileStatus>,
    staged: Result<Seq<RawFilePatch>, GitError>,
    contents: Seq<Option<Vec<u8>>>,
    parse: P,
    synth: S,
)
    requires
        parse_keeps_path(parse),
        diff_part(raw, parse) matches Ok(d) ==> distinct_paths(
            if live {
                d + untracked_part(st, contents, synth, st.len() as int)
            } else {
                d
            },
        ),
    ensures
        review_spec(live, raw, st, staged, contents, parse, synth) matches Ok(es) ==> distinct_paths(es),
{
    match diff_part(raw, parse) {
        Err(_) => {},
        Ok(d) => {
            if !live {
                lemma_sort_by_path(d);
                lemma_permutation_keeps_paths_distinct(d, sort_by_path(d));
            } else {
                match staged {
                    Err(_) => {},
                    Ok(sp) => {
                        let acc = d + untracked_part(st, contents, synth, st.len() as int);
                        lemma_fully_staged_listed_once(st, sp, parse, acc, st.len() as int);
                        match staged_part(st, sp, parse, acc, st.len() as int) {
                            Err(_) => {},
                            Ok(all) => {
                                lemma_sort_by_path(all);
                                lemma_permutation_keeps_paths_distinct(all, sort_by_path(all));
                            },
                        }
                    },
                }
            }
        },
    }
}

/// The staged diff as plain values.
pub open spec fn staged_view(r: Result<Vec<RawFilePatch>, GitError>) -> Result<Seq<RawFilePatch>, GitError> {
    match r {
        Ok(v) => Ok(v@),
        Err(g) => Err(g),
    }
}

/// `r` is the review that `entries` (the reviewed entries, or the error)
/// call for, with the staged lists of status `st`.
pub open spec fn snapshot_is(r: Result<ReviewSnapshot, ReviewError>, entries: Result<Seq<EntryV>, ReviewError>, st: Seq<FileStatus>) -> bool {
    match r {
        Ok(s) => {
            &&& entries == Ok::<Seq<EntryV>, ReviewError>(snapshot_entries(s))
            &&& s.files@.len() == s.patches@.len()
            &&& staged_files_view(s.staged@) == staged_list(st)
            &&& s.staged_states.wf()
            &&& s.staged_states@ == states_map(st)
        },
        Err(e) => entries == Err::<Seq<EntryV>, ReviewError>(e),
    }
}

/// A snapshot's entries: each file with the raw patch it came from.
pub open spec fn snapshot_entries(s: ReviewSnapshot) -> Seq<EntryV> {
    Seq::new(s.files@.len(), |i: int| (fd_view(s.files@[i]), s.patches@[i]))
}

proof fn lemma_diff_error_persists<P: Fn(&RawFilePatch) -> Result<FileDiff, DiffParseError>>(
    raw: Seq<RawFilePatch>,
    parse: P,
    j: int,
)
    requires
        0 <= j <= raw.len(),
        diff_part(raw.take(j), parse) is Err,
    ensures
        diff_part(raw, parse) == diff_part(raw.take(j), parse),
    decreases raw.len() - j,
{
    if j < raw.len() {
        assert(raw.drop_last().take(j) =~= raw.take(j));
        lemma_diff_error_persists(raw.drop_last(), parse, j);
    } else {
        assert(raw.take(j) =~= raw);
    }
}

/// Parses the target's raw patches in order (see [`diff_part`]).
fn parse_diff<P: Fn(&RawFilePatch) -> Result<FileDiff, DiffParseError>>(
    raw: &Vec<RawFilePatch>,
    parse: &P,
) -> (r: Result<Vec<Entry>, DiffParseError>)
    requires
        parser_ok(*parse),
    ensures
        match r {
            Ok(es) => diff_part(raw@, *parse) == Ok::<Seq<EntryV>, DiffParseError>(entries_view(es@)),
            Err(e) => diff_part(raw@, *parse) == Err::<Seq<EntryV>, DiffParseError>(e),
        },
{
    let mut entries: Vec<Entry> = Vec::new();
    let mut i: usize = 0;
    assert(raw@.take(0) =~= Seq::<RawFilePatch>::empty());
    assert(entries_view(entries@) =~= Seq::<EntryV>::empty());
    while i < raw.len()
        invariant
            i <= raw@.len(),
            parser_ok(*parse),
            diff_part(raw@.take(i as int), *parse) == Ok::<Seq<EntryV>, DiffParseError>(
                entries_view(entries@),
            ),
        decreases raw.len() - i,
    {
        let p = &raw[i];
        let r = parse(p);
        proof {
            assert(parse.ensures((p,), r));
            assert(parse.ensures((&raw@[i as int],), parsed(*parse, raw@[i as int])));
            let t = raw@.take(i + 1);
            assert(t.drop_last() =~= raw@.take(i as int));
            assert(t.last() == raw@[i as int]);
        }
        match r {
            Ok(f) => {
                let ghost before = entries_view(entries@);
                entries.push((f, Some(p.duplicate())));
                assert(entries_view(entries@) =~= before.push((fd_view(f), Some(raw@[i as int]))));
            },
            Err(e) => {
                proof {
                    lemma_diff_error_persists(raw@, *parse, i + 1);
                }
                return Err(e);
            },
        }
        i = i + 1;
    }
    assert(raw@.take(raw@.len() as int) =~= raw@);
    Ok(entries)
}

/// Appends the untracked files' entries (see [`untracked_part`]).
fn add_untracked<S: Fn(String, String) -> FileDiff>(
    entries: &mut Vec<Entry>,
    st: &Vec<FileStatus>,
    contents: &Vec<Option<Vec<u8>>>,
    synth: &S,
)
    requires
        synth_ok(*synth),
    ensures
        entries_view(final(entries)@) == entries_view(old(entries)@) + untracked_part(
            st@,
            contents@,
            *synth,
            st@.len() as int,
        ),
{
    let ghost base = entries_view(entries@);
    let mut i: usize = 0;
    assert(base + untracked_part(st@, contents@, *synth, 0) =~= base);
    while i < st.len()
        invariant
            i <= st@.len(),
            synth_ok(*synth),
            entries_view(entries@) == base + untracked_part(st@, contents@, *synth, i as int),
        decreases st.len() - i,
    {
        let e = &st[i];
        let ghost before = entries_view(entries@);
        let is_untracked = match e.kind {
            ChangeKind::Untracked => true,
            _ => false,
        };
        if is_untracked && i < contents.len() {
            match &contents[i] {
                Some(bytes) => {
                    let copy = bytes.clone();
                    assert(copy@ =~= bytes@);
                    match decode_utf8(copy) {
                        Some(text) => {
                            let path = e.path.clone();
                            let ghost t = text;
                            let f = synth(path, text);
                            proof {
                                assert(synth.ensures((e.path, t), f));
                                let w = choose|f2: FileDiff, t2: String| #![trigger synth.ensures((e.path, t2), f2)]
                                    t2@ == t@ && synth.ensures((e.path, t2), f2);
                                assert(synthesized(*synth, e.path, t@) == f);
                            }
                            entries.push((f, None));
                            assert(entries_view(entries@) =~= before.push((fd_view(f), None)));
                        },
                        None => {
                            entries.push(
                                (
                                    FileDiff {
                                        path: e.path.clone(),
                                        old_path: None,
                                        kind: FileChangeKind::Added,
                                        is_binary: true,
                                        hunks: Vec::new(),
                                    },
                                    None,
                                ),
                            );
                            assert(entries_view(entries@) =~= before.push(
                                (
                                    FileDiffV {
                                        path: e.path,
                                        old_path: None,
                                        kind: FileChangeKind::Added,
                                        is_binary: true,
                                        hunks: Seq::empty(),
                                    },
                                    None,
                                ),
                            ));
                        },
                    }
                },
                None => {},
            }
        }
        proof {
            let n = i + 1;
            assert(st@[n - 1] == *e);
            assert(base + untracked_part(st@, contents@, *synth, i as int) == before);
            assert(entries_view(entries@) =~= base + untracked_part(st@, contents@, *synth, n as int));
        }
        i = i + 1;
    }
}

/// Whether some entry is for `path`.
fn entries_have_path(entries: &Vec<Entry>, path: &String) -> (b: bool)
    ensures
        b == has_path(entries_view(entries@), path@),
{
    let ghost es = entries_view(entries@);
    let mut j: usize = 0;
    while j < entries.len()
        invariant
            j <= entries@.len(),
            es == entries_view(entries@),
            forall|k: int| 0 <= k < j ==> key(es[k]) != path@,
        decreases entries.len() - j,
    {
        if entries[j].0.path == *path {
            assert(key(es[j as int]) == path@);
            return true;
        }
        j = j + 1;
    }
    false
}

proof fn lemma_last_patch_suffix(sp: Seq<RawFilePatch>, path: Seq<char>, m: int)
    requires
        0 <= m <= sp.len(),
        forall|j: int| m <= j < sp.len() ==> (#[trigger] sp[j]).path@ != path,
    ensures
        last_patch(sp, path) == last_patch(sp.take(m), path),
    decreases sp.len() - m,
{
    if m < sp.len() {
        assert(sp.drop_last().take(m) =~= sp.take(m));
        assert(sp.last() == sp[sp.len() - 1]);
        lemma_last_patch_suffix(sp.drop_last(), path, m);
    } else {
        assert(sp.take(m) =~= sp);
    }
}

/// Where the last patch of `sp` for `path` is (see [`last_patch`]).
fn find_last_patch(sp: &Vec<RawFilePatch>, path: &String) -> (r: Option<usize>)
    ensures
        match r {
            Some(k) => k < sp@.len() && last_patch(sp@, path@) == Some(sp@[k as int]),
            None => last_patch(sp@, path@) is None,
        },
{
    let mut k: usize = sp.len();
    while k > 0
        invariant
            k <= sp@.len(),
            forall|j: int| k <= j < sp@.len() ==> (#[trigger] sp@[j]).path@ != path@,
        decreases k,
    {
        if sp[k - 1].path == *path {
            proof {
                lemma_last_patch_suffix(sp@, path@, k as int);
                let t = sp@.take(k as int);
                assert(t.last() == sp@[k - 1]);
            }
            return Some(k - 1);
        }
        k = k - 1;
    }
    proof {
        lemma_last_patch_suffix(sp@, path@, 0);
        assert(sp@.take(0).len() == 0);
    }
    None
}

proof fn lemma_staged_error_persists<P: Fn(&RawFilePatch) -> Result<FileDiff, DiffParseError>>(
    st: Seq<FileStatus>,
    sp: Seq<RawFilePatch>,
    parse: P,
    acc: Seq<EntryV>,
    j: int,
    n: int,
)
    requires
        0 <= j <= n,
        staged_part(st, sp, parse, acc, j) is Err,
    ensures
        staged_part(st, sp, parse, acc, n) == staged_part(st, sp, parse, acc, j),
    decreases n - j,
{
    if j < n {
        lemma_staged_error_persists(st, sp, parse, acc, j, n - 1);
    }
}

/// Appends the fully staged files no entry covers yet (see
/// [`staged_part`]); the first parse error otherwise.
fn add_staged<P: Fn(&RawFilePatch) -> Result<FileDiff, DiffParseError>>(
    entries: &mut Vec<Entry>,
    st: &Vec<FileStatus>,
    sp: &Vec<RawFilePatch>,
    parse: &P,
) -> (r: Result<(), DiffParseError>)
    requires
        parser_ok(*parse),
    ensures
        match r {
            Ok(_) => staged_part(st@, sp@, *parse, entries_view(old(entries)@), st@.len() as int)
                == Ok::<Seq<EntryV>, DiffParseError>(entries_view(final(entries)@)),
            Err(e) => staged_part(st@, sp@, *parse, entries_view(old(entries)@), st@.len() as int)
                == Err::<Seq<EntryV>, DiffParseError>(e),
        },
{
    let ghost base = entries_view(entries@);
    let mut i: usize = 0;
    while i < st.len()
        invariant
            i <= st@.len(),
            parser_ok(*parse),
            base == entries_view(old(entries)@),
            staged_part(st@, sp@, *parse, base, i as int) == Ok::<Seq<EntryV>, DiffParseError>(
                entries_view(entries@),
            ),
        decreases st.len() - i,
    {
        let e = &st[i];
        let ghost before = entries_view(entries@);
        let full = match staged_state(e) {
            StagedState::Full => true,
            _ => false,
        };
        if full && !entries_have_path(entries, &e.path) {
            match find_last_patch(sp, &e.path) {
                Some(k) => {
                    let p = &sp[k];
                    let r = parse(p);
                    proof {
                        assert(parse.ensures((p,), r));
                        assert(parse.ensures((&sp@[k as int],), parsed(*parse, sp@[k as int])));
                    }
                    match r {
                        Ok(f) => {
                            entries.push((f, Some(p.duplicate())));
                            assert(entries_view(entries@) =~= before.push((fd_view(f), Some(sp@[k as int]))));
                        },
                        Err(err) => {
                            proof {
                                assert(st@[i as int] == *e);
                                assert(parsed(*parse, sp@[k as int]) == Err::<FileDiff, DiffParseError>(err));
                                assert(staged_part(st@, sp@, *parse, base, i + 1)
                                    == Err::<Seq<EntryV>, DiffParseError>(err));
                                lemma_staged_error_persists(
                                    st@,
                                    sp@,
                                    *parse,
                                    base,
                                    i + 1,
                                    st@.len() as int,
                                );
                            }
                            return Err(err);
                        },
                    }
                },
                None => {
                    let placeholder = FileDiff {
                        path: e.path.clone(),
                        old_path: clone_opt_string(&e.orig_path),
                        kind: kind_from_staged_code(e.staged),
                        is_binary: false,
                        hunks: Vec::new(),
                    };
                    entries.push((placeholder, None));
                    assert(entries_view(entries@) =~= before.push((fd_view(placeholder), None)));
                },
            }
        }
        proof {
            assert(st@[i as int] == *e);
        }
        i = i + 1;
    }
    Ok(())
}

/// Splits `es` into its files and their patches, index by index.
fn split_entries(es: Vec<Entry>) -> (r: (Vec<FileDiff>, Vec<Option<RawFilePatch>>))
    ensures
        r.0@.len() == es@.len(),
        r.1@.len() == es@.len(),
        forall|i: int| 0 <= i < es@.len() ==> r.0@[i] == (#[trigger] es@[i]).0 && r.1@[i] == es@[i].1,
{
    let ghost orig = es@;
    let mut rest = es;
    let mut files: Vec<FileDiff> = Vec::new();
    let mut patches: Vec<Option<RawFilePatch>> = Vec::new();
    while rest.len() > 0
        invariant
            files@.len() == patches@.len(),
            files@.len() + rest@.len() == orig.len(),
            rest@ == orig.skip(files@.len() as int),
            forall|i: int| 0 <= i < files@.len() ==> files@[i] == (#[trigger] orig[i]).0 && patches@[i] == orig[i].1,
        decreases rest.len(),
    {
        let ghost k = files@.len() as int;
        let (f, p) = rest.remove(0);
        assert(orig[k] == (f, p));
        files.push(f);
        patches.push(p);
        assert(rest@ =~= orig.skip(k + 1));
    }
    (files, patches)
}

/// The review the parsed target entries `entries` call for (see
/// [`review_rest`]), with the staged lists of `status`.
fn assemble_review<
    P: Fn(&RawFilePatch) -> Result<FileDiff, DiffParseError>,
    S: Fn(String, String) -> FileDiff,
>(
    entries: Vec<Entry>,
    live: bool,
    status: &Vec<FileStatus>,
    staged: Result<Vec<RawFilePatch>, GitError>,
    contents: &Vec<Option<Vec<u8>>>,
    parse: &P,
    synth: &S,
) -> (r: Result<ReviewSnapshot, ReviewError>)
    requires
        parser_ok(*parse),
        synth_ok(*synth),
    ensures
        snapshot_is(
            r,
            review_rest(entries_view(entries@), live, status@, staged_view(staged), contents@, *parse, *synth),
            status@,
        ),
{
    let ghost d = entries_view(entries@);
    let mut all = entries;
    if live {
        match staged {
            Err(g) => {
                return Err(ReviewError::Git(g));
            },
            Ok(sp) => {
                add_untracked(&mut all, status, contents, synth);
                match add_staged(&mut all, status, &sp, parse) {
                    Err(e) => {
                        return Err(ReviewError::Parse(e));
                    },
                    Ok(_) => {},
                }
            },
        }
    }
    let sorted = sort_entries(all);
    let (files, patches) = split_entries(sorted);
    let snapshot = ReviewSnapshot {
        files,
        patches,
        staged: staged_from_status(status.as_slice()),
        staged_states: staged_states_from_status(status.as_slice()),
    };
    assert(snapshot_entries(snapshot) =~= entries_view(sorted@));
    Ok(snapshot)
}

/// The review of a target whose raw patches are `raw` (see
/// [`review_spec`]): every entry with the raw patch it came from, sorted by
/// path, and the staged lists of `status`. `staged` (the staged diff) and
/// `contents` (each untracked status entry's bytes, by index; none where
/// unreadable) are read only in a working-tree review (`live`).
pub fn compose_review<
    P: Fn(&RawFilePatch) -> Result<FileDiff, DiffParseError>,
    S: Fn(String, String) -> FileDiff,
>(
    live: bool,
    raw: &Vec<RawFilePatch>,
    status: &Vec<FileStatus>,
    staged: Result<Vec<RawFilePatch>, GitError>,
    contents: &Vec<Option<Vec<u8>>>,
    parse: &P,
    synth: &S,
) -> (r: Result<ReviewSnapshot, ReviewError>)
    requires
        parser_ok(*parse),
        synth_ok(*synth),
    ensures
        snapshot_is(
            r,
            review_spec(live, raw@, status@, staged_view(staged), contents@, *parse, *synth),
            status@,
        ),
{
    match parse_diff(raw, parse) {
        Err(e) => Err(ReviewError::Parse(e)),
        Ok(entries) => assemble_review(entries, live, status, staged, contents, parse, synth),
    }
}

/// The paths a review reads from the working tree, one per status entry:
/// an untracked file's path; none for any other entry.
pub open spec fn worktree_read_paths(st: Seq<FileStatus>) -> Seq<Option<Seq<char>>> {
    Seq::new(
        st.len(),
        |i: int|
            if st[i].kind is Untracked {
                Some(st[i].path@)
            } else {
                None
            },
    )
}

/// The paths a review reads from the working tree (see
/// [`worktree_read_paths`]).
pub fn worktree_reads(status: &Vec<FileStatus>) -> (paths: Vec<Option<String>>)
    ensures
        paths@.len() == status@.len(),
        forall|i: int|
            0 <= i < status@.len() ==> opt_string(#[trigger] paths@[i]) == worktree_read_paths(status@)[i],
{
    let mut paths: Vec<Option<String>> = Vec::new();
    let mut i: usize = 0;
    while i < status.len()
        invariant
            i <= status@.len(),
            paths@.len() == i,
            forall|k: int| 0 <= k < i ==> opt_string(#[trigger] paths@[k]) == worktree_read_paths(status@)[k],
        decreases status.len() - i,
    {
        let untracked = match status[i].kind {
            ChangeKind::Untracked => true,
            _ => false,
        };
        if untracked {
            paths.push(Some(status[i].path.clone()));
        } else {
            paths.push(None);
        }
        i = i + 1;
    }
    paths
}

/// The view of an optional string.
pub open spec fn opt_string(o: Option<String>) -> Option<Seq<char>> {
    match o {
        Some(s) => Some(s@),
        None => None,
    }
}

/// The second diff a review of `target` reads: the staged diff, for the
/// working tree only.
pub fn staged_read(target: &DiffTarget) -> (t: Option<DiffTarget>)
    ensures
        t == (if target.is_live_spec() {
            Some(DiffTarget::Staged)
        } else {
            None
        }),
{
    if target.is_live() {
        Some(DiffTarget::Staged)
    } else {
        None
    }
}

/// The review that the backend's answers call for: the target's diff
/// `diff`, then the status `status` (the first of them that failed is the
/// review's git error), then the rest as [`review_spec`] says.
pub open spec fn review_outcome<
    P: Fn(&RawFilePatch) -> Result<FileDiff, DiffParseError>,
    S: Fn(String, String) -> FileDiff,
>(
    live: bool,
    diff: Result<Seq<RawFilePatch>, GitError>,
    status: Result<Seq<FileStatus>, GitError>,
    staged: Result<Seq<RawFilePatch>, GitError>,
    contents: Seq<Option<Vec<u8>>>,
    parse: P,
    synth: S,
) -> Result<Seq<EntryV>, ReviewError> {
    match diff {
        Err(g) => Err(ReviewError::Git(g)),
        Ok(raw) => match status {
            Err(g) => Err(ReviewError::Git(g)),
            Ok(st) => review_spec(live, raw, st, staged, contents, parse, synth),
        },
    }
}

/// `r` is the review of a target (`live` for the working tree) whose
/// reads gave back `diff`, `status`, `staged` and `contents` (see
/// [`review_outcome`]), with nothing read for a status entry that
/// [`worktree_read_paths`] does not name.
pub open spec fn review_read_as<
    P: Fn(&RawFilePatch) -> Result<FileDiff, DiffParseError>,
    S: Fn(String, String) -> FileDiff,
>(
    r: Result<ReviewSnapshot, ReviewError>,
    live: bool,
    diff: Result<Seq<RawFilePatch>, GitError>,
    status: Result<Seq<FileStatus>, GitError>,
    staged: Result<Seq<RawFilePatch>, GitError>,
    contents: Seq<Option<Vec<u8>>>,
    parse: P,
    synth: S,
) -> bool {
    let st = match status {
        Ok(st) => st,
        Err(_) => Seq::empty(),
    };
    &&& snapshot_is(r, review_outcome(live, diff, status, staged, contents, parse, synth), st)
    &&& contents.len() == st.len() || contents.len() == 0
    &&& forall|i: int| 0 <= i < contents.len() && worktree_read_paths(st)[i] is None ==> #[trigger] contents[i] is None
}

/// Builds the review of `target` through `ops`: the target's diff and the
/// status, then, for the working tree, the staged diff (see
/// [`staged_read`]) and the bytes of each untracked file (see
/// [`worktree_reads`]), put together as [`compose_review`] does. The first
/// read that failed, of the diff, the status or the staged diff, is the
/// review's error, unchanged. Whatever `ops` answers, the review is the one
/// its answers call for.
pub fn build_review<
    O: StageOps,
    P: Fn(&RawFilePatch) -> Result<FileDiff, DiffParseError>,
    S: Fn(String, String) -> FileDiff,
>(ops: &O, target: &DiffTarget, parse: &P, synth: &S) -> (r: Result<ReviewSnapshot, ReviewError>)
    requires
        parser_ok(*parse),
        synth_ok(*synth),
    ensures
        exists|
            diff: Result<Seq<RawFilePatch>, GitError>,
            status: Result<Seq<FileStatus>, GitError>,
            staged: Result<Seq<RawFilePatch>, GitError>,
            contents: Seq<Option<Vec<u8>>>,
        | #[trigger] review_read_as(r, target.is_live_spec(), diff, status, staged, contents, *parse, *synth),
{
    let live = target.is_live();
    let ghost no_contents = Seq::<Option<Vec<u8>>>::empty();
    let ghost no_staged = Ok::<Seq<RawFilePatch>, GitError>(Seq::empty());
    let ghost no_status = Ok::<Seq<FileStatus>, GitError>(Seq::empty());
    let raw = match ops.diff(target) {
        Ok(raw) => raw,
        Err(g) => {
            let r = Err(ReviewError::Git(g));
            assert(review_read_as(r, live, Err(g), no_status, no_staged, no_contents, *parse, *synth));
            return r;
        },
    };
    let status = match ops.status() {
        Ok(status) => status,
        Err(g) => {
            let r = Err(ReviewError::Git(g));
            assert(review_read_as(r, live, Ok(raw@), Err(g), no_staged, no_contents, *parse, *synth));
            return r;
        },
    };
    let entries = match parse_diff(&raw, parse) {
        Ok(entries) => entries,
        Err(e) => {
            let r = Err(ReviewError::Parse(e));
            assert(review_read_as(r, live, Ok(raw@), Ok(status@), no_staged, no_contents, *parse, *synth));
            return r;
        },
    };
    let mut contents: Vec<Option<Vec<u8>>> = Vec::new();
    let staged = match staged_read(target) {
        Some(staged_target) => {
            let staged = ops.diff(&staged_target);
            if staged.is_ok() {
                let paths = worktree_reads(&status);
                let mut i: usize = 0;
                while i < paths.len()
                    invariant
                        i <= paths@.len(),
                        paths@.len() == status@.len(),
                        contents@.len() == i,
                        forall|k: int| 0 <= k < paths@.len() ==> opt_string(#[trigger] paths@[k]) == worktree_read_paths(status@)[k],
                        forall|k: int| 0 <= k < i && worktree_read_paths(status@)[k] is None ==> #[trigger] contents@[k] is None,
                    decreases paths.len() - i,
                {
                    match &paths[i] {
                        Some(p) => contents.push(ops.read_worktree_file(p.as_str())),
                        None => contents.push(None),
                    }
                    i = i + 1;
                }
            }
            staged
        },
        None => Ok(Vec::new()),
    };
    let ghost sv = staged_view(staged);
    let r = assemble_review(entries, live, &status, staged, &contents, parse, synth);
    assert(review_read_as(r, live, Ok(raw@), Ok(status@), sv, contents@, *parse, *synth));
    r
}

} // verus!
