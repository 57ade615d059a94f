//! Character-level helpers shared by every module that formats or matches
//! text: strings are reasoned about as their `Seq<char>` views.
use vstd::prelude::*;

verus! {

/// The characters of `s`, in order.
pub fn chars_of(s: &str) -> (out: Vec<char>)
    ensures
        out@ == s@,
{
    let mut out: Vec<char> = Vec::new();
    for c in it: s.chars()
        invariant
            out@ == it.seq().take(it.index() as int),
            it.seq() == s@,
    {
        out.push(c);
    }
    out
}

/// Appends `c` to `s`: `String::push`, which the standard library documents
/// as appending the given char to the end of the string.
#[verifier::external_body]
pub(crate) fn push_char(s: &mut String, c: char)
    ensures
        final(s)@ == old(s)@.push(c),
{
    s.push(c);
}

/// The string made of `chars`, in order.
pub fn string_of(chars: &[char]) -> (out: String)
    ensures
        out@ == chars@,
{
    let mut out = String::new();
    let mut i: usize = 0;
    while i < chars.len()
        invariant
            i <= chars.len(),
            out@ == chars@.take(i as int),
        decreases chars.len() - i,
    {
        push_char(&mut out, chars[i]);
        i = i + 1;
        assert(out@ =~= chars@.take(i as int));
    }
    assert(chars@.take(chars.len() as int) =~= chars@);
    out
}

/// Appends every char of `more` to `s`.
pub fn push_all(s: &mut String, more: &str)
    ensures
        final(s)@ == old(s)@ + more@,
{
    let cs = chars_of(more);
    let ghost start = s@;
    let mut i: usize = 0;
    while i < cs.len()
        invariant
            i <= cs.len(),
            cs@ == more@,
            s@ == start + cs@.take(i as int),
        decreases cs.len() - i,
    {
        push_char(s, cs[i]);
        i = i + 1;
        assert(s@ =~= start + cs@.take(i as int));
    }
    assert(cs@.take(cs.len() as int) =~= cs@);
}

/// Whether `a` and `b` hold the same text.
pub fn str_eq(a: &str, b: &str) -> (r: bool)
    ensures
        r == (a@ == b@),
{
    let ca = chars_of(a);
    let cb = chars_of(b);
    if ca.len() != cb.len() {
        return false;
    }
    let mut i: usize = 0;
    while i < ca.len()
        invariant
            ca@ == a@,
            cb@ == b@,
            ca.len() == cb.len(),
            i <= ca.len(),
            forall|j: int| 0 <= j < i ==> ca@[j] == cb@[j],
        decreases ca.len() - i,
    {
        if ca[i] != cb[i] {
            return false;
        }
        i = i + 1;
    }
    assert(ca@ =~= cb@);
    true
}

/// Unicode `White_Space`: exactly the set `char::is_whitespace` reports.
pub open spec fn is_ws(c: char) -> bool {
    let n = c as u32;
    ||| 0x09 <= n <= 0x0d
    ||| n == 0x20
    ||| n == 0x85
    ||| n == 0xa0
    ||| n == 0x1680
    ||| 0x2000 <= n <= 0x200a
    ||| n == 0x2028
    ||| n == 0x2029
    ||| n == 0x202f
    ||| n == 0x205f
    ||| n == 0x3000
}

/// Whether `c` is whitespace (Unicode `White_Space`, as `char::is_whitespace`).
pub fn is_whitespace(c: char) -> (b: bool)
    ensures
        b == is_ws(c),
{
    let n = c as u32;
    (0x09 <= n && n <= 0x0d) || n == 0x20 || n == 0x85 || n == 0xa0 || n == 0x1680
        || (0x2000 <= n && n <= 0x200a) || n == 0x2028 || n == 0x2029 || n == 0x202f
        || n == 0x205f || n == 0x3000
}

/// A piece of `s` split on `'\n'` with its line ending removed: a piece
/// that a newline terminated loses one trailing `'\r'` as well.
pub open spec fn strip_cr(piece: Seq<char>, terminated: bool) -> Seq<char> {
    if terminated && piece.len() > 0 && piece.last() == '\r' {
        piece.drop_last()
    } else {
        piece
    }
}

/// The lines of `s` as `str::lines` yields them: split at `'\n'`, with a
/// `"\r\n"` ending counted as one line ending, and no empty line after a
/// final line ending (none at all for an empty string).
pub open spec fn lines_spec(s: Seq<char>) -> Seq<Seq<char>> {
    let parts = crate::parse::split_seq(s, '\n');
    let n = parts.len();
    let kept = if parts[n - 1].len() == 0 { n - 1 } else { n as int };
    Seq::new(kept as nat, |i: int| strip_cr(parts[i], i < n - 1))
}

/// The lines of `s`, as `str::lines` yields them (see [`lines_spec`]).
pub fn lines_of(s: &str) -> (out: Vec<Vec<char>>)
    ensures
        out@.len() == lines_spec(s@).len(),
        forall|i: int| 0 <= i < out@.len() ==> #[trigger] out@[i]@ == lines_spec(s@)[i],
{
    let cs = chars_of(s);
    let parts = crate::parse::split_ranges(&cs, '\n');
    let ghost ps = crate::parse::split_seq(cs@, '\n');
    proof {
        crate::parse::lemma_split_nonempty(cs@, '\n');
    }
    let n = parts.len();
    let kept = if parts[n - 1].0 == parts[n - 1].1 {
        n - 1
    } else {
        n
    };
    proof {
        assert(ps[n - 1] == cs@.subrange(parts@[n - 1].0 as int, parts@[n - 1].1 as int));
    }
    let mut out: Vec<Vec<char>> = Vec::new();
    let mut i: usize = 0;
    while i < kept
        invariant
            kept <= n == parts@.len() == ps.len(),
            ps == crate::parse::split_seq(s@, '\n'),
            cs@ == s@,
            kept == lines_spec(s@).len(),
            i <= kept,
            out@.len() == i,
            forall|k: int|
                0 <= k < parts@.len() ==> {
                    &&& #[trigger] parts@[k].0 <= parts@[k].1 <= cs.len()
                    &&& cs@.subrange(parts@[k].0 as int, parts@[k].1 as int) == ps[k]
                },
            forall|k: int| 0 <= k < i ==> #[trigger] out@[k]@ == lines_spec(s@)[k],
        decreases kept - i,
    {
        let (a, b) = parts[i];
        let mut e = b;
        if i + 1 < n && a < b && cs[b - 1] == '\r' {
            e = b - 1;
        }
        let mut line: Vec<char> = Vec::new();
        let mut k = a;
        while k < e
            invariant
                a <= k <= e <= b <= cs.len(),
                line@ == cs@.subrange(a as int, k as int),
            decreases e - k,
        {
            line.push(cs[k]);
            k = k + 1;
            assert(line@ =~= cs@.subrange(a as int, k as int));
        }
        proof {
            let piece = ps[i as int];
            assert(piece == cs@.subrange(a as int, b as int));
            assert(line@ =~= strip_cr(piece, i < n - 1));
        }
        out.push(line);
        i = i + 1;
    }
    out
}

} // verus!
