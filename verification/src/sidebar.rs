//! The file sidebar's text: each file's path split into a dimmed directory
//! prefix and its basename, the staged-state marker column, a renamed
//! file's origin suffix, and the footer summarizing file, staged and note
//! counts.
use vstd::prelude::*;

use crate::decimal::{dec, push_u64};
use crate::stage_ops::StagedState;
use crate::text::{chars_of, push_all, string_of};

verus! {

/// The index of the last `c` in `s`, if any.
pub open spec fn last_index_of(s: Seq<char>, c: char) -> Option<int>
    decreases s.len(),
{
    if s.len() == 0 {
        None
    } else if s.last() == c {
        Some(s.len() - 1)
    } else {
        last_index_of(s.drop_last(), c)
    }
}

/// `path` split after its last `/` into the directory prefix (slash
/// included) and the basename; no prefix when there is no `/`.
pub open spec fn split_path_spec(path: Seq<char>) -> (Seq<char>, Seq<char>) {
    match last_index_of(path, '/') {
        Some(i) => (path.take(i + 1), path.skip(i + 1)),
        None => (Seq::empty(), path),
    }
}

proof fn lemma_last_index_of(s: Seq<char>, c: char, k: int)
    requires
        0 <= k <= s.len(),
        forall|j: int| k <= j < s.len() ==> s[j] != c,
    ensures
        last_index_of(s, c) == last_index_of(s.take(k), c),
    decreases s.len() - k,
{
    if k < s.len() {
        assert(s.drop_last() =~= s.take(s.len() - 1));
        lemma_last_index_of(s.drop_last(), c, k);
        assert(s.drop_last().take(k) =~= s.take(k));
    } else {
        assert(s.take(k) =~= s);
    }
}

/// Splits `path` into its directory prefix and basename (see
/// [`split_path_spec`]).
pub fn split_path(path: &str) -> (r: (String, String))
    ensures
        (r.0@, r.1@) == split_path_spec(path@),
{
    let cs = chars_of(path);
    let mut k: usize = cs.len();
    while k > 0 && cs[k - 1] != '/'
        invariant
            k <= cs@.len(),
            cs@ == path@,
            forall|j: int| k <= j < cs@.len() ==> cs@[j] != '/',
        decreases k,
    {
        k = k - 1;
    }
    proof {
        lemma_last_index_of(cs@, '/', k as int);
        if k > 0 {
            assert(cs@.take(k as int).last() == '/');
        } else {
            assert(cs@.take(0) =~= Seq::<char>::empty());
        }
    }
    if k == 0 {
        (String::new(), string_of(cs.as_slice()))
    } else {
        let mut dir: Vec<char> = Vec::new();
        let mut base: Vec<char> = Vec::new();
        let mut i: usize = 0;
        while i < cs.len()
            invariant
                0 < k <= cs@.len(),
                i <= cs@.len(),
                dir@ == cs@.take(if i < k { i as int } else { k as int }),
                base@ == (if i <= k { Seq::<char>::empty() } else { cs@.subrange(k as int, i as int) }),
            decreases cs.len() - i,
        {
            if i < k {
                dir.push(cs[i]);
            } else {
                base.push(cs[i]);
            }
            i = i + 1;
            assert(dir@ =~= cs@.take(if i < k { i as int } else { k as int }));
            assert(base@ =~= (if i <= k { Seq::<char>::empty() } else { cs@.subrange(k as int, i as int) }));
        }
        assert(base@ =~= cs@.skip(k as int));
        (string_of(dir.as_slice()), string_of(base.as_slice()))
    }
}

/// The staged-state column: `●` for a fully staged file, `±` for a
/// partially staged one, blank otherwise, always two columns wide.
pub open spec fn staged_marker_spec(state: StagedState) -> Seq<char> {
    match state {
        StagedState::Full => "\u{25cf} "@,
        StagedState::Partial => "\u{00b1} "@,
        StagedState::Unstaged => "  "@,
    }
}

/// The staged-state column (see [`staged_marker_spec`]).
pub fn staged_marker(state: StagedState) -> (s: &'static str)
    ensures
        s@ == staged_marker_spec(state),
        s@.len() == 2,
{
    proof {
        reveal_strlit("\u{25cf} ");
        reveal_strlit("\u{00b1} ");
        reveal_strlit("  ");
    }
    match state {
        StagedState::Full => "\u{25cf} ",
        StagedState::Partial => "\u{00b1} ",
        StagedState::Unstaged => "  ",
    }
}

/// The suffix naming a renamed file's original basename.
pub open spec fn rename_suffix_spec(old_path: Seq<char>) -> Seq<char> {
    " \u{2190} "@ + split_path_spec(old_path).1
}

/// The suffix naming a renamed file's original basename (see
/// [`rename_suffix_spec`]).
pub fn rename_suffix(old_path: &str) -> (s: String)
    ensures
        s@ == rename_suffix_spec(old_path@),
{
    let (_, base) = split_path(old_path);
    let mut s = String::from_str(" \u{2190} ");
    proof {
        reveal_strlit(" \u{2190} ");
    }
    push_all(&mut s, base.as_str());
    s
}

/// The sidebar footer: the file count, then the staged count and the note
/// count when they are not zero.
pub open spec fn footer_spec(files: nat, staged: nat, notes: nat) -> Seq<char> {
    " ["@ + dec(files) + " files]"@ + (if staged > 0 {
        " ["@ + dec(staged) + " staged]"@
    } else {
        Seq::empty()
    }) + (if notes > 0 {
        " ["@ + dec(notes) + " notes]"@
    } else {
        Seq::empty()
    })
}

/// The sidebar footer (see [`footer_spec`]).
pub fn footer_text(files: u64, staged: u64, notes: u64) -> (s: String)
    ensures
        s@ == footer_spec(files as nat, staged as nat, notes as nat),
{
    proof {
        reveal_strlit(" [");
        reveal_strlit(" files]");
        reveal_strlit(" staged]");
        reveal_strlit(" notes]");
    }
    let mut s = String::from_str(" [");
    push_u64(&mut s, files);
    push_all(&mut s, " files]");
    let ghost a = s@;
    if staged > 0 {
        push_all(&mut s, " [");
        push_u64(&mut s, staged);
        push_all(&mut s, " staged]");
    }
    let ghost b = s@;
    if notes > 0 {
        push_all(&mut s, " [");
        push_u64(&mut s, notes);
        push_all(&mut s, " notes]");
    }
    assert(s@ =~= footer_spec(files as nat, staged as nat, notes as nat));
    s
}

} // verus!
