//! Search: smartcase substring matching over the diff pane's searchable
//! text (line content and hunk-header section text), and the [`SearchState`] the
//! app drives `/`/`n`/`N` navigation through.
use vstd::prelude::*;

use crate::rows::{Row, RowV, rows_view};
use crate::text::{chars_of, push_char};

verus! {

/// What `str::to_lowercase` gives for a string (Unicode lowercase mapping).
pub uninterp spec fn lowercase(s: Seq<char>) -> Seq<char>;

/// What `char::is_uppercase` gives for a char (Unicode `Uppercase`).
pub uninterp spec fn is_upper(c: char) -> bool;

/// `str::to_lowercase`: the lowercase mapping of `s`.
#[verifier::external_body]
fn to_lowercase(s: &str) -> (r: String)
    ensures
        r@ == lowercase(s@),
{
    s.to_lowercase()
}

/// `char::is_uppercase`: whether `c` has the Unicode `Uppercase` property.
#[verifier::external_body]
fn char_is_uppercase(c: char) -> (b: bool)
    ensures
        b == is_upper(c),
{
    c.is_uppercase()
}

/// Whether `p` occurs in `h` starting at `i`.
pub open spec fn occurs_at(h: Seq<char>, p: Seq<char>, i: int) -> bool {
    0 <= i && i + p.len() <= h.len() && h.subrange(i, i + p.len()) == p
}

/// Whether `p` occurs somewhere in `h` (`str::contains`).
pub open spec fn contains_seq(h: Seq<char>, p: Seq<char>) -> bool {
    exists|i: int| #[trigger] occurs_at(h, p, i)
}

/// Whether `p` occurs in `h` (`str::contains`).
pub fn contains_chars(h: &[char], p: &[char]) -> (b: bool)
    ensures
        b == contains_seq(h@, p@),
{
    if p.len() > h.len() {
        assert forall|i: int| !#[trigger] occurs_at(h@, p@, i) by {}
        return false;
    }
    let last = h.len() - p.len();
    let mut i: usize = 0;
    while i <= last
        invariant
            last == h.len() - p.len(),
            p.len() <= h.len(),
            i <= last + 1,
            forall|k: int| 0 <= k < i ==> !#[trigger] occurs_at(h@, p@, k),
        decreases last + 1 - i,
    {
        let mut k: usize = 0;
        while k < p.len() && h[i + k] == p[k]
            invariant
                i <= last,
                last == h.len() - p.len(),
                k <= p.len(),
                forall|q: int| 0 <= q < k ==> h@[i + q] == p@[q],
            decreases p.len() - k,
        {
            k = k + 1;
        }
        if k == p.len() {
            assert(h@.subrange(i as int, i + p.len()) =~= p@);
            assert(occurs_at(h@, p@, i as int));
            return true;
        }
        assert(!occurs_at(h@, p@, i as int)) by {
            if occurs_at(h@, p@, i as int) {
                assert(h@.subrange(i as int, i + p.len())[k as int] == h@[i + k]);
            }
        }
        i = i + 1;
    }
    assert forall|k: int| !#[trigger] occurs_at(h@, p@, k) by {
        if 0 <= k < i {
        }
    }
    false
}

/// Whether any char of `s` is uppercase.
pub open spec fn has_upper(s: Seq<char>) -> bool {
    exists|i: int| 0 <= i < s.len() && is_upper(#[trigger] s[i])
}

/// Smartcase matching: an empty pattern never matches; a pattern with an
/// uppercase char matches case-sensitively; an all-lowercase pattern
/// matches case-insensitively.
pub open spec fn smartcase_spec(h: Seq<char>, p: Seq<char>) -> bool {
    if p.len() == 0 {
        false
    } else if has_upper(p) {
        contains_seq(h, p)
    } else {
        contains_seq(lowercase(h), lowercase(p))
    }
}

/// A pattern with an uppercase letter anywhere in it matches case-sensitively:
/// the answer is exactly whether it occurs verbatim in the haystack.
pub proof fn lemma_uppercase_pattern_matches_verbatim(h: Seq<char>, p: Seq<char>, k: int)
    requires
        0 <= k < p.len(),
        is_upper(p[k]),
    ensures
        smartcase_spec(h, p) == contains_seq(h, p),
{
    assert(has_upper(p));
}

/// A non-empty pattern with no uppercase letter matches case-insensitively:
/// the answer is whether its lowercase form occurs in the haystack's.
pub proof fn lemma_lowercase_pattern_ignores_case(h: Seq<char>, p: Seq<char>)
    requires
        p.len() > 0,
        forall|k: int| 0 <= k < p.len() ==> !is_upper(#[trigger] p[k]),
    ensures
        smartcase_spec(h, p) == contains_seq(lowercase(h), lowercase(p)),
{
}

/// Whether `pattern` smartcase-matches somewhere in `haystack` (vim's
/// `smartcase`). An empty pattern never matches anything.
pub fn smartcase_contains(haystack: &str, pattern: &str) -> (b: bool)
    ensures
        b == smartcase_spec(haystack@, pattern@),
{
    let p = chars_of(pattern);
    if p.len() == 0 {
        return false;
    }
    let mut upper = false;
    let mut i: usize = 0;
    while i < p.len()
        invariant
            i <= p@.len(),
            p@ == pattern@,
            upper == exists|k: int| 0 <= k < i && is_upper(#[trigger] p@[k]),
        decreases p.len() - i,
    {
        if char_is_uppercase(p[i]) {
            upper = true;
        }
        i = i + 1;
    }
    if upper {
        let h = chars_of(haystack);
        contains_chars(&h, &p)
    } else {
        let hl = to_lowercase(haystack);
        let pl = to_lowercase(pattern);
        let h2 = chars_of(hl.as_str());
        let p2 = chars_of(pl.as_str());
        contains_chars(&h2, &p2)
    }
}

/// Where the `@@` that closes a hunk header's ranges starts, looking from
/// `i` on.
pub open spec fn closing_at(t: Seq<char>, i: int) -> Option<int>
    decreases t.len() - i,
{
    if i < 0 || i + 2 > t.len() {
        None
    } else if t[i] == '@' && t[i + 1] == '@' {
        Some(i)
    } else {
        closing_at(t, i + 1)
    }
}

/// A hunk header's section text: what follows the closing `@@` of
/// `@@ -a,b +c,d @@`, without the one space that separates it; empty when
/// the header has none.
pub open spec fn header_section(t: Seq<char>) -> Seq<char> {
    match closing_at(t, 2) {
        None => seq![],
        Some(k) => {
            let rest = t.skip(k + 2);
            if rest.len() > 0 && rest[0] == ' ' {
                rest.drop_first()
            } else {
                rest
            }
        },
    }
}

/// A hunk header's section text (see [`header_section`]).
pub fn hunk_section(text: &str) -> (s: String)
    ensures
        s@ == header_section(text@),
{
    let t = chars_of(text);
    let mut i: usize = 2;
    let mut k: Option<usize> = None;
    while i < t.len() && i + 1 < t.len()
        invariant
            t@ == text@,
            2 <= i <= t@.len() + 2,
            k is None ==> closing_at(t@, 2) == closing_at(t@, i as int),
            k matches Some(j) ==> closing_at(t@, 2) == Some(j as int) && j + 2 <= t@.len(),
        decreases t.len() - i,
    {
        if k.is_none() && t[i] == '@' && t[i + 1] == '@' {
            k = Some(i);
        }
        i = i + 1;
    }
    let mut out = String::new();
    match k {
        None => {
            assert(closing_at(t@, i as int) is None);
            assert(out@ =~= header_section(text@));
            out
        },
        Some(j) => {
            let mut m: usize = j + 2;
            if m < t.len() && t[m] == ' ' {
                m = m + 1;
            }
            let ghost start = m as int;
            assert(header_section(text@) =~= t@.skip(start));
            while m < t.len()
                invariant
                    t@ == text@,
                    0 <= start <= m <= t@.len(),
                    out@ =~= t@.subrange(start, m as int),
                decreases t.len() - m,
            {
                let ghost before = out@;
                push_char(&mut out, t[m]);
                assert(out@ == before.push(t@[m as int]));
                m = m + 1;
                assert(out@ =~= t@.subrange(start, m as int));
            }
            assert(t@.subrange(start, t@.len() as int) =~= t@.skip(start));
            out
        },
    }
}

/// The searchable text of a row: a line's content or a hunk header's
/// section text.
pub open spec fn searchable(r: RowV) -> Option<Seq<char>> {
    match r {
        RowV::Line(l) => Some(l.content),
        RowV::HunkHeader { text, .. } => Some(header_section(text)),
        _ => None,
    }
}

/// Whether row `r` matches `p`.
pub open spec fn row_matches(r: RowV, p: Seq<char>) -> bool {
    match searchable(r) {
        Some(t) => smartcase_spec(t, p),
        None => false,
    }
}

/// The indices among `rows[..n]` that match `p`, ascending.
pub open spec fn match_indices(rows: Seq<RowV>, p: Seq<char>, n: int) -> Seq<usize>
    decreases n,
{
    if n <= 0 {
        seq![]
    } else {
        match_indices(rows, p, n - 1) + if row_matches(rows[n - 1], p) {
            seq![(n - 1) as usize]
        } else {
            seq![]
        }
    }
}

/// Row indices in `rows` whose searchable text smartcase-matches `pattern`:
/// a line's content, or a hunk header's section text (see
/// [`header_section`]). Other rows never match.
pub fn find_matches(rows: &[Row], pattern: &str) -> (out: Vec<usize>)
    ensures
        out@ == match_indices(rows_view(rows@), pattern@, rows@.len() as int),
{
    let mut out: Vec<usize> = Vec::new();
    let mut i: usize = 0;
    while i < rows.len()
        invariant
            i <= rows@.len(),
            out@ == match_indices(rows_view(rows@), pattern@, i as int),
        decreases rows.len() - i,
    {
        let hit = match &rows[i] {
            Row::Line(l) => smartcase_contains(l.content.as_str(), pattern),
            Row::HunkHeader { text, .. } => {
                let section = hunk_section(text.as_str());
                smartcase_contains(section.as_str(), pattern)
            },
            _ => false,
        };
        assert(rows_view(rows@)[i as int] == rows@[i as int]@);
        assert(hit == row_matches(rows_view(rows@)[i as int], pattern@));
        if hit {
            out.push(i);
        }
        assert(out@ =~= match_indices(rows_view(rows@), pattern@, i as int + 1));
        i = i + 1;
    }
    out
}

/// `match_indices` is strictly ascending and in bounds.
pub proof fn lemma_match_indices_ascending(rows: Seq<RowV>, p: Seq<char>, n: int)
    requires
        0 <= n <= rows.len(),
        rows.len() <= usize::MAX,
    ensures
        ascending(match_indices(rows, p, n)),
        forall|k: int|
            0 <= k < match_indices(rows, p, n).len() ==> #[trigger] match_indices(rows, p, n)[k] < n,
    decreases n,
{
    if n > 0 {
        lemma_match_indices_ascending(rows, p, n - 1);
    }
}

/// Whether `m` is strictly ascending.
pub open spec fn ascending(m: Seq<usize>) -> bool {
    forall|i: int, j: int| 0 <= i < j < m.len() ==> #[trigger] m[i] < #[trigger] m[j]
}

/// One search session: the confirmed pattern and the row indices it
/// matches in the current file's rows.
#[derive(Debug, Clone, PartialEq, Eq)]
pub struct SearchState {
    /// The confirmed search pattern, if a search is active.
    pub pattern: Option<String>,
    /// Row indices matching `pattern` in the current file's rows, in
    /// ascending order.
    pub matches: Vec<usize>,
}

impl Default for SearchState {
    fn default() -> (s: SearchState)
        ensures
            s.pattern is None,
            s.matches@.len() == 0,
    {
        SearchState { pattern: None, matches: Vec::new() }
    }
}

/// The first of `m[i..]` at least `c`.
pub open spec fn first_at_least(m: Seq<usize>, c: int, i: int) -> Option<usize>
    decreases m.len() - i,
{
    if i < 0 || i >= m.len() {
        None
    } else if m[i] >= c {
        Some(m[i])
    } else {
        first_at_least(m, c, i + 1)
    }
}

/// The last of `m[..n]` below `c`.
pub open spec fn last_below(m: Seq<usize>, c: int, n: int) -> Option<usize>
    decreases n,
{
    if n <= 0 {
        None
    } else if m[n - 1] < c {
        Some(m[n - 1])
    } else {
        last_below(m, c, n - 1)
    }
}

/// The first match at or after `c`, wrapping to the first match.
pub open spec fn next_spec(m: Seq<usize>, c: int) -> Option<usize> {
    match first_at_least(m, c, 0) {
        Some(x) => Some(x),
        None => if m.len() > 0 { Some(m[0]) } else { None },
    }
}

/// The last match before `c`, wrapping to the last match.
pub open spec fn prev_spec(m: Seq<usize>, c: int) -> Option<usize> {
    match last_below(m, c, m.len() as int) {
        Some(x) => Some(x),
        None => if m.len() > 0 { Some(m.last()) } else { None },
    }
}

/// The 1-based position of the first `row` in `m[i..]`.
pub open spec fn position_spec(m: Seq<usize>, row: usize, i: int) -> Option<usize>
    decreases m.len() - i,
{
    if i < 0 || i >= m.len() {
        None
    } else if m[i] == row {
        Some((i + 1) as usize)
    } else {
        position_spec(m, row, i + 1)
    }
}

impl SearchState {
    /// Recomputes `matches` against `rows` for the current `pattern`
    /// (clearing `matches` if there is none).
    pub fn recompute(&mut self, rows: &[Row])
        ensures
            final(self).pattern == old(self).pattern,
            match old(self).pattern {
                Some(p) => final(self).matches@ == match_indices(rows_view(rows@), p@, rows@.len() as int),
                None => final(self).matches@.len() == 0,
            },
    {
        self.matches = match &self.pattern {
            Some(pattern) => find_matches(rows, pattern.as_str()),
            None => Vec::new(),
        };
    }

    /// The first match at or after `c` in `self.matches[i..]`.
    fn first_from(&self, c: usize, strict: bool) -> (r: Option<usize>)
        ensures
            r == first_at_least(self.matches@, if strict { c + 1 } else { c as int }, 0),
    {
        let ghost lim = if strict { c + 1 } else { c as int };
        let mut i: usize = 0;
        while i < self.matches.len()
            invariant
                i <= self.matches@.len(),
                lim == if strict { c + 1 } else { c as int },
                first_at_least(self.matches@, lim, i as int) == first_at_least(self.matches@, lim, 0),
            decreases self.matches.len() - i,
        {
            let r = self.matches[i];
            if (strict && r > c) || (!strict && r >= c) {
                return Some(r);
            }
            i = i + 1;
        }
        None
    }

    /// The next match row at or after `cursor`, wrapping to the first
    /// match if none is found forward. `None` if there are no matches.
    pub fn next_from(&self, cursor: usize) -> (r: Option<usize>)
        ensures
            r == next_spec(self.matches@, cursor as int),
    {
        match self.first_from(cursor, false) {
            Some(r) => Some(r),
            None => if self.matches.len() > 0 {
                Some(self.matches[0])
            } else {
                None
            },
        }
    }

    /// The next match strictly after `cursor`, wrapping to the first match.
    /// `None` if there are no matches.
    pub fn advance_from(&self, cursor: usize) -> (r: Option<usize>)
        ensures
            r == next_spec(self.matches@, cursor + 1),
    {
        match self.first_from(cursor, true) {
            Some(r) => Some(r),
            None => if self.matches.len() > 0 {
                Some(self.matches[0])
            } else {
                None
            },
        }
    }

    /// The previous match strictly before `cursor`, wrapping to the last
    /// match. `None` if there are no matches.
    pub fn retreat_from(&self, cursor: usize) -> (r: Option<usize>)
        ensures
            r == prev_spec(self.matches@, cursor as int),
    {
        let mut n = self.matches.len();
        while n > 0
            invariant
                n <= self.matches@.len(),
                last_below(self.matches@, cursor as int, n as int) == last_below(
                    self.matches@,
                    cursor as int,
                    self.matches@.len() as int,
                ),
            decreases n,
        {
            let r = self.matches[n - 1];
            if r < cursor {
                return Some(r);
            }
            n = n - 1;
        }
        if self.matches.len() > 0 {
            Some(self.matches[self.matches.len() - 1])
        } else {
            None
        }
    }

    /// The 1-based position of `row` within `matches`, for the `match k/N`
    /// footer echo. `None` if `row` isn't a match.
    pub fn position_of(&self, row: usize) -> (r: Option<usize>)
        ensures
            r == position_spec(self.matches@, row, 0),
    {
        let mut i: usize = 0;
        while i < self.matches.len()
            invariant
                i <= self.matches@.len(),
                position_spec(self.matches@, row, i as int) == position_spec(self.matches@, row, 0),
            decreases self.matches.len() - i,
        {
            if self.matches[i] == row {
                return Some(i + 1);
            }
            i = i + 1;
        }
        None
    }
}

proof fn lemma_first_at_least_found(m: Seq<usize>, c: int, i: int, k: int)
    requires
        ascending(m),
        0 <= i <= k < m.len(),
        m[k] >= c,
        k == 0 || m[k - 1] < c,
        forall|q: int| i <= q < k ==> m[q] < c,
    ensures
        first_at_least(m, c, i) == Some(m[k]),
    decreases k - i,
{
    if i < k {
        lemma_first_at_least_found(m, c, i + 1, k);
    }
}

proof fn lemma_last_below_found(m: Seq<usize>, c: int, n: int, k: int)
    requires
        ascending(m),
        0 <= k < n <= m.len(),
        m[k] < c,
        forall|q: int| k < q < n ==> m[q] >= c,
    ensures
        last_below(m, c, n) == Some(m[k]),
    decreases n - k,
{
    if k < n - 1 {
        lemma_last_below_found(m, c, n - 1, k);
    }
}

/// Stepping forward from a match and back again returns to it: on strictly
/// ascending matches, `retreat_from(advance_from(m))` is `m` for every match
/// `m`.
pub proof fn lemma_advance_then_retreat(m: Seq<usize>, i: int)
    requires
        ascending(m),
        0 <= i < m.len(),
    ensures
        next_spec(m, m[i] + 1) matches Some(x) && prev_spec(m, x as int) == Some(m[i]),
{
    if i + 1 < m.len() {
        lemma_first_at_least_found(m, m[i] + 1, 0, i + 1);
        let x = m[i + 1];
        lemma_last_below_found(m, x as int, m.len() as int, i);
    } else {
        assert forall|q: int| 0 <= q < m.len() implies m[q] < m[i] + 1 by {
            if q < i {
                assert(m[q] < m[i]);
            }
        }
        lemma_first_at_least_none(m, m[i] + 1, 0);
        let x = m[0];
        if i == 0 {
            lemma_last_below_none(m, x as int, m.len() as int);
        } else {
            assert forall|q: int| 0 <= q < m.len() implies m[q] >= x by {
                if q > 0 {
                    assert(m[0] < m[q]);
                }
            }
            lemma_last_below_none(m, x as int, m.len() as int);
        }
    }
}

proof fn lemma_first_at_least_none(m: Seq<usize>, c: int, i: int)
    requires
        0 <= i <= m.len(),
        forall|q: int| i <= q < m.len() ==> m[q] < c,
    ensures
        first_at_least(m, c, i) is None,
    decreases m.len() - i,
{
    if i < m.len() {
        lemma_first_at_least_none(m, c, i + 1);
    }
}

proof fn lemma_last_below_none(m: Seq<usize>, c: int, n: int)
    requires
        0 <= n <= m.len(),
        forall|q: int| 0 <= q < n ==> m[q] >= c,
    ensures
        last_below(m, c, n) is None,
    decreases n,
{
    if n > 0 {
        lemma_last_below_none(m, c, n - 1);
    }
}

} // verus!
