//! Splitting and integer parsing over char sequences, as `str::split` and
//! `str::parse::<i64>`/`str::parse::<u32>` behave.
use vstd::prelude::*;

verus! {

/// Index of the first `c` in `s`, if any.
pub open spec fn first_index_of(s: Seq<char>, c: char) -> Option<int>
    decreases s.len(),
{
    if s.len() == 0 {
        None
    } else if s[0] == c {
        Some(0)
    } else {
        match first_index_of(s.drop_first(), c) {
            Some(i) => Some(i + 1),
            None => None,
        }
    }
}

/// The pieces `s` splits into around every `sep` (`str::split`).
pub open spec fn split_seq(s: Seq<char>, sep: char) -> Seq<Seq<char>>
    decreases s.len(),
{
    match first_index_of(s, sep) {
        Some(i) => if 0 <= i < s.len() {
            seq![s.take(i)] + split_seq(s.skip(i + 1), sep)
        } else {
            seq![s]
        },
        None => seq![s],
    }
}

/// The value of a run of ASCII digits.
pub open spec fn digits_value(s: Seq<char>) -> int
    decreases s.len(),
{
    if s.len() == 0 {
        0
    } else {
        digits_value(s.drop_last()) * 10 + (s.last() as int - 48)
    }
}

/// Whether every char of `s` is an ASCII digit.
pub open spec fn all_digits(s: Seq<char>) -> bool {
    forall|i: int| 0 <= i < s.len() ==> '0' <= #[trigger] s[i] <= '9'
}

/// What `str::parse::<i64>` gives for `s`: an optional `+` or `-`, then one
/// or more ASCII digits, whose value fits in `i64`.
pub open spec fn parse_i64_spec(s: Seq<char>) -> Option<i64> {
    let neg = s.len() > 0 && s[0] == '-';
    let body = if s.len() > 0 && (s[0] == '+' || s[0] == '-') { s.drop_first() } else { s };
    if body.len() == 0 || !all_digits(body) {
        None
    } else {
        let v = if neg { -digits_value(body) } else { digits_value(body) };
        if i64::MIN <= v <= i64::MAX { Some(v as i64) } else { None }
    }
}

/// What `str::parse::<u32>` gives for `s`: an optional `+`, then one or
/// more ASCII digits, whose value fits in `u32`.
pub open spec fn parse_u32_spec(s: Seq<char>) -> Option<u32> {
    let body = if s.len() > 0 && s[0] == '+' { s.drop_first() } else { s };
    if body.len() == 0 || !all_digits(body) {
        None
    } else {
        let v = digits_value(body);
        if v <= u32::MAX { Some(v as u32) } else { None }
    }
}

proof fn lemma_digits_value_nonneg(s: Seq<char>)
    requires
        all_digits(s),
    ensures
        digits_value(s) >= 0,
    decreases s.len(),
{
    if s.len() > 0 {
        assert(all_digits(s.drop_last()));
        lemma_digits_value_nonneg(s.drop_last());
    }
}

proof fn lemma_digits_value_grows(s: Seq<char>)
    requires
        all_digits(s),
        s.len() > 0,
    ensures
        digits_value(s) >= digits_value(s.drop_last()),
{
    assert(all_digits(s.drop_last()));
    lemma_digits_value_nonneg(s.drop_last());
}

/// The value of the ASCII digits `s[start..end]`, or `None` if some char is
/// not a digit, the run is empty, or the value exceeds `limit`.
fn digits_up_to(s: &[char], start: usize, end: usize, limit: u64) -> (r: Option<u64>)
    requires
        start <= end <= s.len(),
        limit >= 9,
    ensures
        r matches Some(v) ==> {
            &&& start < end
            &&& all_digits(s@.subrange(start as int, end as int))
            &&& v as int == digits_value(s@.subrange(start as int, end as int))
            &&& v <= limit
        },
        r is None ==> (start == end || !all_digits(s@.subrange(start as int, end as int))
            || digits_value(s@.subrange(start as int, end as int)) > limit),
{
    if start == end {
        return None;
    }
    let mut v: u64 = 0;
    let mut i = start;
    while i < end
        invariant
            start <= i <= end <= s.len(),
            all_digits(s@.subrange(start as int, i as int)),
            v as int == digits_value(s@.subrange(start as int, i as int)),
            v <= limit,
            limit >= 9,
        decreases end - i,
    {
        let c = s[i];
        let ghost prev = s@.subrange(start as int, i as int);
        let ghost next = s@.subrange(start as int, i as int + 1);
        assert(next.drop_last() =~= prev);
        assert(next.last() == c);
        if !('0' <= c && c <= '9') {
            assert(!all_digits(s@.subrange(start as int, end as int))) by {
                assert(s@.subrange(start as int, end as int)[i - start] == c);
            }
            return None;
        }
        let d = (c as u32 - 48) as u64;
        assert(all_digits(next)) by {
            assert forall|j: int| 0 <= j < next.len() implies '0' <= #[trigger] next[j] <= '9' by {
                if j < prev.len() {
                    assert(next[j] == prev[j]);
                }
            }
        }
        if v > (limit - d) / 10 {
            proof {
                assert(digits_value(next) == v * 10 + d);
                assert(v * 10 + d > limit) by (nonlinear_arith)
                    requires v > (limit - d) / 10, d <= 9, limit >= 9;
                lemma_rest_exceeds(s@, start as int, i as int + 1, end as int, limit as int);
            }
            return None;
        }
        proof {
            assert(v * 10 + d <= limit) by (nonlinear_arith)
                requires v <= (limit - d) / 10, d <= 9, limit >= 9;
        }
        v = v * 10 + d;
        i = i + 1;
    }
    Some(v)
}

proof fn lemma_rest_exceeds(s: Seq<char>, start: int, k: int, end: int, limit: int)
    requires
        0 <= start < k <= end <= s.len(),
        all_digits(s.subrange(start, k)),
        digits_value(s.subrange(start, k)) > limit,
    ensures
        !all_digits(s.subrange(start, end)) || digits_value(s.subrange(start, end)) > limit,
    decreases end - k,
{
    if k < end && all_digits(s.subrange(start, end)) {
        let next = s.subrange(start, k + 1);
        assert(next.drop_last() =~= s.subrange(start, k));
        assert(all_digits(next)) by {
            assert forall|j: int| 0 <= j < next.len() implies '0' <= #[trigger] next[j] <= '9' by {
                assert(next[j] == s.subrange(start, end)[j]);
            }
        }
        lemma_digits_value_grows(next);
        lemma_rest_exceeds(s, start, k + 1, end, limit);
    }
}

/// `str::parse::<i64>` over `s[start..end]`.
pub fn parse_i64(s: &[char], start: usize, end: usize) -> (r: Option<i64>)
    requires
        start <= end <= s.len(),
    ensures
        r == parse_i64_spec(s@.subrange(start as int, end as int)),
{
    let ghost whole = s@.subrange(start as int, end as int);
    let neg = start < end && s[start] == '-';
    let body_start = if start < end && (s[start] == '+' || s[start] == '-') {
        start + 1
    } else {
        start
    };
    let ghost body = s@.subrange(body_start as int, end as int);
    assert(body =~= (if whole.len() > 0 && (whole[0] == '+' || whole[0] == '-') {
        whole.drop_first()
    } else {
        whole
    }));
    let limit: u64 = if neg {
        9_223_372_036_854_775_808
    } else {
        9_223_372_036_854_775_807
    };
    match digits_up_to(s, body_start, end, limit) {
        Some(v) => {
            proof {
                lemma_digits_value_nonneg(body);
            }
            if neg {
                if v == 9_223_372_036_854_775_808 {
                    Some(i64::MIN)
                } else {
                    Some(-(v as i64))
                }
            } else {
                Some(v as i64)
            }
        },
        None => {
            proof {
                if body.len() > 0 && all_digits(body) {
                    lemma_digits_value_nonneg(body);
                }
            }
            None
        },
    }
}

/// `str::parse::<u32>` over `s[start..end]`.
pub fn parse_u32(s: &[char], start: usize, end: usize) -> (r: Option<u32>)
    requires
        start <= end <= s.len(),
    ensures
        r == parse_u32_spec(s@.subrange(start as int, end as int)),
{
    let ghost whole = s@.subrange(start as int, end as int);
    let body_start = if start < end && s[start] == '+' {
        start + 1
    } else {
        start
    };
    let ghost body = s@.subrange(body_start as int, end as int);
    assert(body =~= (if whole.len() > 0 && whole[0] == '+' {
        whole.drop_first()
    } else {
        whole
    }));
    match digits_up_to(s, body_start, end, 4_294_967_295) {
        Some(v) => Some(v as u32),
        None => None,
    }
}

proof fn lemma_first_index_skip(s: Seq<char>, c: char, pos: int, j: int)
    requires
        0 <= pos <= j <= s.len(),
        forall|k: int| pos <= k < j ==> s[k] != c,
        j < s.len() ==> s[j] == c,
    ensures
        j < s.len() ==> first_index_of(s.skip(pos), c) == Some(j - pos),
        j == s.len() ==> first_index_of(s.skip(pos), c) == None::<int>,
    decreases j - pos,
{
    let t = s.skip(pos);
    if pos < j {
        assert(t[0] == s[pos]);
        assert(t.drop_first() =~= s.skip(pos + 1));
        lemma_first_index_skip(s, c, pos + 1, j);
    } else if j < s.len() {
        assert(t[0] == s[j]);
    } else {
        assert(t.len() == 0);
    }
}

/// The `[start, end)` ranges of the pieces `s` splits into around every
/// `sep` (`str::split`).
pub fn split_ranges(s: &[char], sep: char) -> (parts: Vec<(usize, usize)>)
    ensures
        parts@.len() == split_seq(s@, sep).len(),
        forall|k: int|
            0 <= k < parts@.len() ==> {
                &&& #[trigger] parts@[k].0 <= parts@[k].1 <= s.len()
                &&& s@.subrange(parts@[k].0 as int, parts@[k].1 as int) == split_seq(s@, sep)[k]
            },
{
    let mut parts: Vec<(usize, usize)> = Vec::new();
    let mut pos: usize = 0;
    assert(s@.skip(0) =~= s@);
    loop
        invariant
            pos <= s.len(),
            parts@.len() + split_seq(s@.skip(pos as int), sep).len() == split_seq(s@, sep).len(),
            forall|k: int|
                0 <= k < parts@.len() ==> {
                    &&& #[trigger] parts@[k].0 <= parts@[k].1 <= s.len()
                    &&& s@.subrange(parts@[k].0 as int, parts@[k].1 as int) == split_seq(s@, sep)[k]
                },
            forall|k: int|
                0 <= k < split_seq(s@.skip(pos as int), sep).len() ==> #[trigger] split_seq(
                    s@.skip(pos as int),
                    sep,
                )[k] == split_seq(s@, sep)[parts@.len() + k],
        decreases s.len() - pos,
    {
        let mut j = pos;
        while j < s.len() && s[j] != sep
            invariant
                pos <= j <= s.len(),
                forall|k: int| pos <= k < j ==> s@[k] != sep,
            decreases s.len() - j,
        {
            j = j + 1;
        }
        proof {
            lemma_first_index_skip(s@, sep, pos as int, j as int);
        }
        let ghost rest = split_seq(s@.skip(pos as int), sep);
        parts.push((pos, j));
        if j == s.len() {
            proof {
                assert(rest == seq![s@.skip(pos as int)]);
                assert(s@.subrange(pos as int, j as int) =~= s@.skip(pos as int));
                assert(rest[0] == split_seq(s@, sep)[parts@.len() - 1]);
            }
            return parts;
        }
        proof {
            let t = s@.skip(pos as int);
            assert(t.take(j - pos) =~= s@.subrange(pos as int, j as int));
            assert(t.skip(j - pos + 1) =~= s@.skip(j + 1));
            assert(rest == seq![s@.subrange(pos as int, j as int)] + split_seq(s@.skip(j + 1), sep));
            assert(rest[0] == split_seq(s@, sep)[parts@.len() - 1]);
            let rest2 = split_seq(s@.skip(j + 1), sep);
            assert forall|k: int| 0 <= k < rest2.len() implies #[trigger] rest2[k] == split_seq(
                s@,
                sep,
            )[parts@.len() + k] by {
                assert(rest2[k] == rest[k + 1]);
            }
        }
        pos = j + 1;
    }
}

/// Splitting always yields at least one piece.
pub proof fn lemma_split_nonempty(s: Seq<char>, sep: char)
    ensures
        split_seq(s, sep).len() >= 1,
    decreases s.len(),
{
    match first_index_of(s, sep) {
        Some(i) => {
            if 0 <= i < s.len() {
                lemma_split_nonempty(s.skip(i + 1), sep);
            }
        },
        None => {},
    }
}

/// What `str::parse::<i32>` gives for `s`: an optional `+` or `-`, then
/// one or more ASCII digits, whose value fits in `i32`.
pub open spec fn parse_i32_spec(s: Seq<char>) -> Option<i32> {
    match parse_i64_spec(s) {
        Some(v) => if i32::MIN <= v <= i32::MAX {
            Some(v as i32)
        } else {
            None
        },
        None => None,
    }
}

/// `str::parse::<i32>` (see [`parse_i32_spec`]).
pub fn parse_i32(s: &str) -> (r: Option<i32>)
    ensures
        r == parse_i32_spec(s@),
{
    let cs = crate::text::chars_of(s);
    proof {
        assert(cs@.subrange(0, cs@.len() as int) =~= s@);
    }
    match parse_i64(cs.as_slice(), 0, cs.len()) {
        Some(v) => if -2147483648 <= v && v <= 2147483647 {
            Some(v as i32)
        } else {
            None
        },
        None => None,
    }
}

} // verus!
