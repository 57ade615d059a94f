//! Decimal rendering of integers, as `format!("{}")` / `format!("{:0w}")`
//! write them.
use vstd::prelude::*;

use crate::text::push_char;

verus! {

/// The ASCII digit for `d` (`0 <= d < 10`).
pub open spec fn digit_char(d: int) -> char {
    (48 + d) as char
}

/// The decimal digits of `n`, most significant first, without leading
/// zeros (`"0"` for zero).
pub open spec fn dec(n: nat) -> Seq<char>
    decreases n,
{
    if n < 10 {
        seq![digit_char(n as int)]
    } else {
        dec(n / 10).push(digit_char((n % 10) as int))
    }
}

/// `10^k`.
pub open spec fn pow10(k: nat) -> nat
    decreases k,
{
    if k == 0 {
        1
    } else {
        10 * pow10((k - 1) as nat)
    }
}

/// A number below `10^k` (`k >= 1`) has at most `k` decimal digits.
pub proof fn lemma_dec_len(n: nat, k: nat)
    requires
        k >= 1,
        n < pow10(k),
    ensures
        dec(n).len() <= k,
    decreases n,
{
    if n >= 10 {
        assert(k >= 2) by {
            if k == 1 {
                reveal_with_fuel(pow10, 2);
                assert(pow10(1) == 10);
            }
        }
        assert(n / 10 < pow10((k - 1) as nat));
        lemma_dec_len(n / 10, (k - 1) as nat);
    }
}

/// A `u64` has at most 20 decimal digits.
pub proof fn lemma_dec_len_u64(n: u64)
    ensures
        dec(n as nat).len() <= 20,
{
    assert(pow10(20) == 100000000000000000000) by {
        reveal_with_fuel(pow10, 21);
    }
    lemma_dec_len(n as nat, 20);
}

/// `s` left-padded with `'0'` to at least `w` chars.
pub open spec fn zero_pad(s: Seq<char>, w: int) -> Seq<char> {
    if s.len() >= w {
        s
    } else {
        Seq::new((w - s.len()) as nat, |_i: int| '0') + s
    }
}

/// `n` in decimal with a leading `-` when negative (`format!("{}")`).
pub open spec fn signed_dec(n: int) -> Seq<char> {
    if n < 0 {
        seq!['-'] + dec((-n) as nat)
    } else {
        dec(n as nat)
    }
}

/// `n` zero-padded to total width `w`, the sign counted in the width
/// (`format!("{:0w}")`).
pub open spec fn signed_padded(n: int, w: int) -> Seq<char> {
    if n < 0 {
        seq!['-'] + zero_pad(dec((-n) as nat), w - 1)
    } else {
        zero_pad(dec(n as nat), w)
    }
}

/// The decimal digits of `n`.
pub fn digits_of(n: u64) -> (out: Vec<char>)
    ensures
        out@ == dec(n as nat),
        out@.len() >= 1,
    decreases n,
{
    if n < 10 {
        let c = (48u8 + n as u8) as char;
        let v = vec![c];
        proof {
            assert(c == digit_char(n as int));
            assert(v@ =~= seq![digit_char(n as int)]);
        }
        v
    } else {
        let mut v = digits_of(n / 10);
        let d = (n % 10) as u8;
        let c = (48u8 + d) as char;
        assert(c == digit_char((n % 10) as int));
        v.push(c);
        v
    }
}

/// Appends the decimal digits of `n` to `s`, left-padded with zeros to at
/// least `w` digits.
pub fn push_u64_padded(s: &mut String, n: u64, w: usize)
    ensures
        final(s)@ == old(s)@ + zero_pad(dec(n as nat), w as int),
{
    let ds = digits_of(n);
    let ghost start = s@;
    let mut k: usize = ds.len();
    while k < w
        invariant
            ds.len() <= k <= w || (w < ds.len() && k == ds.len()),
            s@ == start + Seq::new((k - ds.len()) as nat, |_i: int| '0'),
        decreases w - k,
    {
        push_char(s, '0');
        k = k + 1;
        assert(s@ =~= start + Seq::new((k - ds.len()) as nat, |_i: int| '0'));
    }
    let ghost mid = s@;
    let mut i: usize = 0;
    while i < ds.len()
        invariant
            i <= ds.len(),
            s@ == mid + ds@.take(i as int),
        decreases ds.len() - i,
    {
        push_char(s, ds[i]);
        i = i + 1;
        assert(s@ =~= mid + ds@.take(i as int));
    }
    assert(ds@.take(ds.len() as int) =~= ds@);
    if ds.len() >= w {
        assert(Seq::new((k - ds.len()) as nat, |_i: int| '0') =~= Seq::<char>::empty());
        assert(s@ =~= start + zero_pad(dec(n as nat), w as int));
    } else {
        assert(s@ =~= start + zero_pad(dec(n as nat), w as int));
    }
}

/// Appends the decimal digits of `n` to `s`.
pub fn push_u64(s: &mut String, n: u64)
    ensures
        final(s)@ == old(s)@ + dec(n as nat),
{
    push_u64_padded(s, n, 0);
}

/// `|n|` as an unsigned value (exact, `i64::MIN` included).
fn magnitude(n: i64) -> (m: u64)
    ensures
        m as int == if n < 0 { -n } else { n as int },
{
    if n < 0 {
        ((-(n + 1)) as u64) + 1
    } else {
        n as u64
    }
}

/// Appends `n` in decimal, zero-padded to total width `w` with the sign
/// counted in the width.
pub fn push_i64_padded(s: &mut String, n: i64, w: usize)
    ensures
        final(s)@ == old(s)@ + signed_padded(n as int, w as int),
{
    let m = magnitude(n);
    if n < 0 {
        let ghost start = s@;
        push_char(s, '-');
        let pw = if w >= 1 {
            w - 1
        } else {
            0
        };
        push_u64_padded(s, m, pw);
        proof {
            if w < 1 {
                assert(zero_pad(dec(m as nat), pw as int) == zero_pad(dec(m as nat), w - 1));
            }
            assert(s@ =~= start + signed_padded(n as int, w as int));
        }
    } else {
        push_u64_padded(s, m, w);
    }
}

/// Appends `n` in decimal with a leading `-` when negative.
pub fn push_i64(s: &mut String, n: i64)
    ensures
        final(s)@ == old(s)@ + signed_dec(n as int),
{
    push_i64_padded(s, n, 0);
    proof {
        let d = dec(if n < 0 { -n } else { n as int } as nat);
        assert(zero_pad(d, 0) == d);
        assert(zero_pad(d, -1) == d);
    }
}

} // verus!
