//! The review-session banner's text: ` REVIEWING <branch> — q to end review`
//! then the `+A -R` stat, padding, and the `accepted/total` count at the
//! row's far edge, fitted to the row's width by shortening only the branch
//! name.
use vstd::prelude::*;

use crate::decimal::{dec, push_u64};
use crate::diff::DiffStat;
use crate::text::{chars_of, push_all, push_char};

verus! {

/// The label before the branch name.
pub open spec fn prefix_text() -> Seq<char> {
    " REVIEWING "@
}

/// The hint after the branch name.
pub open spec fn hint_text() -> Seq<char> {
    " \u{2014} q to end review"@
}

/// `n` spaces.
pub open spec fn spaces(n: nat) -> Seq<char> {
    Seq::new(n, |_i: int| ' ')
}

/// The `+A -R` stat segment.
pub open spec fn stat_spec(stat: DiffStat) -> Seq<char> {
    seq!['+'] + dec(stat.added as nat) + seq![' ', '-'] + dec(stat.removed as nat)
}

/// The `accepted/total` count.
pub open spec fn count_spec(accepted: nat, total: nat) -> Seq<char> {
    dec(accepted) + seq!['/'] + dec(total)
}

/// The columns every full layout reserves whatever the branch name: the
/// label, the hint, a space, the stat, the count and one trailing space.
pub open spec fn fixed_len(stat: DiffStat, accepted: nat, total: nat) -> int {
    (prefix_text().len() + hint_text().len() + 1 + stat_spec(stat).len() + count_spec(
        accepted,
        total,
    ).len() + 1) as int
}

/// The branch name as the banner shows it in `width` columns: whole when it
/// fits, else cut to leave room for an ellipsis and one column of padding.
pub open spec fn branch_display(branch: Seq<char>, fixed: int, width: int) -> Seq<char> {
    if fixed + branch.len() <= width {
        branch
    } else {
        let budget = width - fixed;
        let keep = if budget >= 2 { budget - 2 } else { 0 };
        branch.take(keep).push('\u{2026}')
    }
}

/// The banner's text in `width` columns. Below the room the fixed parts
/// need, the unpadded text is cut at `width`; otherwise the branch name is
/// shortened as needed and padding before the count fills the row.
pub open spec fn banner_spec(
    branch: Seq<char>,
    accepted: nat,
    total: nat,
    stat: DiffStat,
    width: int,
) -> Seq<char> {
    let fixed = fixed_len(stat, accepted, total);
    if width == 0 {
        seq![]
    } else if fixed >= width {
        (prefix_text() + branch + hint_text() + seq![' '] + stat_spec(stat) + seq![' '] + count_spec(
            accepted,
            total,
        )).take(width)
    } else {
        let b = branch_display(branch, fixed, width);
        let used = fixed + b.len();
        let pad = if width >= used { width - used } else { 0 };
        prefix_text() + b + hint_text() + seq![' '] + stat_spec(stat) + spaces(pad as nat)
            + count_spec(accepted, total) + seq![' ']
    }
}

/// Appends `n` spaces to `s`.
fn push_spaces(s: &mut String, n: usize)
    ensures
        final(s)@ == old(s)@ + spaces(n as nat),
{
    let ghost start = old(s)@;
    let mut i: usize = 0;
    while i < n
        invariant
            i <= n,
            s@ == start + spaces(i as nat),
        decreases n - i,
    {
        push_char(s, ' ');
        i = i + 1;
        assert(s@ =~= start + spaces(i as nat));
    }
}

/// The `+A -R` stat segment.
pub fn stat_text(stat: DiffStat) -> (s: String)
    ensures
        s@ == stat_spec(stat),
{
    let mut s = String::new();
    push_char(&mut s, '+');
    push_u64(&mut s, stat.added as u64);
    push_char(&mut s, ' ');
    push_char(&mut s, '-');
    push_u64(&mut s, stat.removed as u64);
    assert(s@ =~= stat_spec(stat));
    s
}

/// The `accepted/total` count.
fn count_text(accepted: usize, total: usize) -> (s: String)
    ensures
        s@ == count_spec(accepted as nat, total as nat),
{
    let mut s = String::new();
    push_u64(&mut s, accepted as u64);
    push_char(&mut s, '/');
    push_u64(&mut s, total as u64);
    assert(s@ =~= count_spec(accepted as nat, total as nat));
    s
}

/// The first `n` chars of `cs`, as a string.
fn take_chars(cs: &Vec<char>, n: usize) -> (s: String)
    requires
        n <= cs@.len(),
    ensures
        s@ == cs@.take(n as int),
{
    let mut s = String::new();
    let mut i: usize = 0;
    while i < n
        invariant
            i <= n <= cs@.len(),
            s@ == cs@.take(i as int),
        decreases n - i,
    {
        push_char(&mut s, cs[i]);
        i = i + 1;
        assert(s@ =~= cs@.take(i as int));
    }
    s
}

/// The review banner's single-row text for a `width`-column band (see
/// [`banner_spec`]).
pub fn banner_text(branch: &str, accepted: usize, total: usize, stat: DiffStat, width: u16) -> (s:
    String)
    ensures
        s@ == banner_spec(branch@, accepted as nat, total as nat, stat, width as int),
{
    proof {
        reveal_strlit(" REVIEWING ");
        reveal_strlit(" \u{2014} q to end review");
    }
    let width = width as usize;
    if width == 0 {
        return String::new();
    }
    let stat_s = stat_text(stat);
    let count_s = count_text(accepted, total);
    let stat_len = chars_of(stat_s.as_str()).len();
    let count_len = chars_of(count_s.as_str()).len();
    assert(stat_len <= 45 && count_len <= 45) by {
        crate::decimal::lemma_dec_len_u64(stat.added as u64);
        crate::decimal::lemma_dec_len_u64(stat.removed as u64);
        crate::decimal::lemma_dec_len_u64(accepted as u64);
        crate::decimal::lemma_dec_len_u64(total as u64);
    }
    let fixed: usize = 11 + 18 + 1 + stat_len + count_len + 1;
    let bcs = chars_of(branch);
    if fixed >= width {
        let mut full = String::new();
        push_all(&mut full, " REVIEWING ");
        push_all(&mut full, branch);
        push_all(&mut full, " \u{2014} q to end review");
        push_char(&mut full, ' ');
        push_all(&mut full, stat_s.as_str());
        push_char(&mut full, ' ');
        push_all(&mut full, count_s.as_str());
        let fcs = chars_of(full.as_str());
        let n = if width < fcs.len() {
            width
        } else {
            fcs.len()
        };
        let out = take_chars(&fcs, n);
        proof {
            let whole = prefix_text() + branch@ + hint_text() + seq![' '] + stat_spec(stat) + seq![' ']
                + count_spec(accepted as nat, total as nat);
            assert(fcs@ =~= whole);
            if width >= fcs@.len() {
                assert(whole.take(width as int) =~= whole);
            }
        }
        return out;
    }
    let shown = if bcs.len() <= width - fixed {
        crate::annotate::copy_str(branch)
    } else {
        let budget = width - fixed;
        let keep = if budget >= 2 {
            budget - 2
        } else {
            0
        };
        let mut t = take_chars(&bcs, keep);
        push_char(&mut t, '\u{2026}');
        t
    };
    let shown_len = chars_of(shown.as_str()).len();
    let used = fixed + shown_len;
    let pad = if width >= used {
        width - used
    } else {
        0
    };
    let mut s = String::new();
    push_all(&mut s, " REVIEWING ");
    push_all(&mut s, shown.as_str());
    push_all(&mut s, " \u{2014} q to end review");
    push_char(&mut s, ' ');
    push_all(&mut s, stat_s.as_str());
    push_spaces(&mut s, pad);
    push_all(&mut s, count_s.as_str());
    push_char(&mut s, ' ');
    proof {
        assert(shown@ == branch_display(branch@, fixed as int, width as int));
        assert(s@ =~= banner_spec(branch@, accepted as nat, total as nat, stat, width as int));
    }
    s
}

/// The banner never runs past its row: its text is at most `width` chars,
/// and exactly `width` whenever the row has room for the fixed parts.
pub proof fn lemma_banner_fits(
    branch: Seq<char>,
    accepted: nat,
    total: nat,
    stat: DiffStat,
    width: int,
)
    requires
        width >= 0,
    ensures
        banner_spec(branch, accepted, total, stat, width).len() <= width,
        width > fixed_len(stat, accepted, total) ==> banner_spec(
            branch,
            accepted,
            total,
            stat,
            width,
        ).len() == width,
{
    let fixed = fixed_len(stat, accepted, total);
    if width > 0 && fixed < width {
        let b = branch_display(branch, fixed, width);
        if fixed + branch.len() > width {
            let budget = width - fixed;
            let keep = if budget >= 2 { budget - 2 } else { 0 };
            assert(b.len() == keep + 1);
        }
        assert(fixed + b.len() <= width);
    }
}

/// The branch label the banner shows: a stale checkout carries a visible
/// marker after the branch name.
pub fn banner_label(branch: &str, stale: bool) -> (s: String)
    ensures
        s@ == (if stale {
            branch@ + " \u{26A0} STALE"@
        } else {
            branch@
        }),
{
    let mut s = crate::annotate::copy_str(branch);
    if stale {
        push_all(&mut s, " \u{26A0} STALE");
    }
    s
}

} // verus!
