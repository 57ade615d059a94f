//! The side-by-side pane's column arithmetic: splitting the pane between
//! the old and new sides around a one-column divider, and fitting a side's
//! styled spans to exactly its column width, so the divider lands in the
//! same column on every row; then backgrounding a side and joining the two
//! around the divider.
use vstd::prelude::*;

use crate::stat_display::SpanStyle;
use crate::text::chars_of;
use crate::theme::{Color, Theme};

verus! {

/// The divider's width between the two sides.
pub const DIVIDER_WIDTH: usize = 1;

/// Splits a pane `inner_width` columns wide into the old and new sides'
/// widths around the divider: the left side takes the smaller half; a pane
/// too narrow for the divider gives both sides nothing.
pub fn column_widths(inner_width: usize) -> (r: (usize, usize))
    ensures
        r.0 + r.1 == if inner_width >= DIVIDER_WIDTH {
            inner_width - DIVIDER_WIDTH
        } else {
            0
        },
        r.0 == (if inner_width >= DIVIDER_WIDTH {
            inner_width - DIVIDER_WIDTH
        } else {
            0
        }) / 2,
{
    let usable = inner_width.saturating_sub(DIVIDER_WIDTH);
    let left = usable / 2;
    let right = usable - left;
    (left, right)
}

/// Spans as plain values: each span's text and style.
pub open spec fn spans_view<S>(spans: Seq<(String, S)>) -> Seq<(Seq<char>, S)> {
    spans.map_values(|p: (String, S)| (p.0@, p.1))
}

/// The text of `spans`, concatenated.
pub open spec fn text_of<S>(spans: Seq<(Seq<char>, S)>) -> Seq<char>
    decreases spans.len(),
{
    if spans.len() == 0 {
        seq![]
    } else {
        spans[0].0 + text_of(spans.drop_first())
    }
}

/// `n` spaces.
pub open spec fn spaces(n: nat) -> Seq<char> {
    Seq::new(n, |i: int| ' ')
}

/// `spans` fit to `width` columns: whole spans while they fit, then the
/// part of the next one that does (cut mid-span, its style kept), and when
/// the text runs out first, one span of spaces in the `pad` style.
pub open spec fn fit_spec<S>(spans: Seq<(Seq<char>, S)>, width: nat, pad: S) -> Seq<(Seq<char>, S)>
    decreases spans.len(),
{
    if width == 0 {
        seq![]
    } else if spans.len() == 0 {
        seq![(spaces(width), pad)]
    } else if spans[0].0.len() <= width {
        seq![spans[0]] + fit_spec(spans.drop_first(), (width - spans[0].0.len()) as nat, pad)
    } else {
        seq![(spans[0].0.take(width as int), spans[0].1)]
    }
}

/// Fitting spans to a width yields exactly that many columns: the text's
/// first `width` characters, then spaces when it was shorter.
pub proof fn lemma_fit_width_exact<S>(spans: Seq<(Seq<char>, S)>, width: nat, pad: S)
    ensures
        text_of(fit_spec(spans, width, pad)) == if text_of(spans).len() >= width {
            text_of(spans).take(width as int)
        } else {
            text_of(spans) + spaces((width - text_of(spans).len()) as nat)
        },
        text_of(fit_spec(spans, width, pad)).len() == width,
    decreases spans.len(),
{
    if width == 0 {
        assert(text_of(spans).take(0) =~= seq![]);
    } else if spans.len() == 0 {
        let f = fit_spec(spans, width, pad);
        let e: Seq<(Seq<char>, S)> = Seq::empty();
        assert(f.drop_first() =~= e);
        assert(text_of(e) =~= Seq::<char>::empty());
        assert(text_of(f) == f[0].0 + text_of(f.drop_first()));
        assert(text_of(f) =~= spaces(width));
        assert(text_of(spans) =~= Seq::<char>::empty());
        assert(Seq::<char>::empty() + spaces(width) =~= spaces(width));
    } else {
        let s0 = spans[0].0;
        let rest = spans.drop_first();
        if s0.len() <= width {
            let w1 = (width - s0.len()) as nat;
            lemma_fit_width_exact(rest, w1, pad);
            let f = fit_spec(spans, width, pad);
            assert(f.drop_first() =~= fit_spec(rest, w1, pad));
            assert(text_of(f) == s0 + text_of(fit_spec(rest, w1, pad)));
            let t = text_of(rest);
            if t.len() >= w1 {
                assert((s0 + t).take(width as int) =~= s0 + t.take(w1 as int));
            } else {
                assert(s0 + (t + spaces((w1 - t.len()) as nat)) =~= (s0 + t) + spaces(
                    (width - (s0 + t).len()) as nat,
                ));
            }
        } else {
            let f = fit_spec(spans, width, pad);
            let e: Seq<(Seq<char>, S)> = Seq::empty();
            assert(f.drop_first() =~= e);
            assert(text_of(e) =~= Seq::<char>::empty());
            assert(text_of(f) == f[0].0 + text_of(f.drop_first()));
            assert(text_of(f) =~= s0.take(width as int));
            assert((s0 + text_of(rest)).take(width as int) =~= s0.take(width as int));
        }
    }
}

/// Fits `spans` to exactly `width` columns (see [`fit_spec`]): the
/// divider that follows then always lands in the same column. A width of
/// 0 gives no spans.
pub fn fit_width<S: Copy>(spans: Vec<(String, S)>, width: usize, pad: S) -> (out: Vec<(String, S)>)
    ensures
        spans_view(out@) == fit_spec(spans_view(spans@), width as nat, pad),
        text_of(spans_view(out@)).len() == width,
{
    let ghost sv = spans_view(spans@);
    let mut out: Vec<(String, S)> = Vec::new();
    let mut used: usize = 0;
    let mut i: usize = 0;
    assert(sv.skip(0) =~= sv);
    assert(spans_view(out@) =~= Seq::<(Seq<char>, S)>::empty());
    while i < spans.len()
        invariant
            i <= spans@.len(),
            used <= width,
            sv == spans_view(spans@),
            spans_view(out@) + fit_spec(sv.skip(i as int), (width - used) as nat, pad) == fit_spec(
                sv,
                width as nat,
                pad,
            ),
        ensures
            used <= width,
            used < width ==> i == spans@.len(),
            spans_view(out@) + fit_spec(sv.skip(i as int), (width - used) as nat, pad) == fit_spec(
                sv,
                width as nat,
                pad,
            ),
        decreases spans.len() - i,
    {
        if used >= width {
            break;
        }
        let remaining = width - used;
        let cs = chars_of(spans[i].0.as_str());
        let ghost rest = sv.skip(i as int);
        proof {
            assert(rest[0] == sv[i as int]);
            assert(rest.drop_first() =~= sv.skip(i + 1));
        }
        if cs.len() <= remaining {
            used = used + cs.len();
            let piece = (spans[i].0.clone(), spans[i].1);
            let ghost before = spans_view(out@);
            out.push(piece);
            proof {
                assert(spans_view(out@) =~= before + seq![sv[i as int]]);
            }
            i = i + 1;
        } else {
            let mut cut = String::new();
            let mut k: usize = 0;
            while k < remaining
                invariant
                    k <= remaining < cs@.len(),
                    cut@ == cs@.subrange(0, k as int),
                decreases remaining - k,
            {
                crate::text::push_char(&mut cut, cs[k]);
                k = k + 1;
                assert(cut@ =~= cs@.subrange(0, k as int));
            }
            let ghost before = spans_view(out@);
            out.push((cut, spans[i].1));
            proof {
                assert(cs@.subrange(0, remaining as int) =~= sv[i as int].0.take(remaining as int));
                assert(spans_view(out@) =~= before + seq![(sv[i as int].0.take(remaining as int), sv[i as int].1)]);
            }
            used = width;
            assert(fit_spec(sv.skip(i + 1), 0, pad) =~= seq![]);
            i = i + 1;
            break;
        }
    }
    if used < width {
        let ghost before = spans_view(out@);
        let mut pad_text = String::new();
        let mut k: usize = 0;
        while k < width - used
            invariant
                k <= width - used,
                pad_text@ == spaces(k as nat),
            decreases width - used - k,
        {
            crate::text::push_char(&mut pad_text, ' ');
            k = k + 1;
            assert(pad_text@ =~= spaces(k as nat));
        }
        out.push((pad_text, pad));
        proof {
            assert(sv.skip(i as int) =~= seq![]);
        }
    } else {
        proof {
            assert(fit_spec(sv.skip(i as int), 0, pad) =~= seq![]);
        }
    }
    proof {
        assert(spans_view(out@) =~= fit_spec(sv, width as nat, pad));
        lemma_fit_width_exact(sv, width as nat, pad);
    }
    out
}

/// `style` with the background `bg` filled in where it sets none (a span's
/// own background wins).
pub open spec fn with_bg_fallback(style: SpanStyle, bg: Option<Color>) -> SpanStyle {
    match bg {
        Some(c) => if style.bg is None {
            SpanStyle { bg: Some(c), ..style }
        } else {
            style
        },
        None => style,
    }
}

/// Backgrounds a side: every span that carries no background of its own
/// gets `bg` (see [`with_bg_fallback`]); the texts are kept.
pub fn apply_bg_fallback(spans: Vec<(String, SpanStyle)>, bg: Option<Color>) -> (out: Vec<(String, SpanStyle)>)
    ensures
        out@.len() == spans@.len(),
        forall|i: int|
            0 <= i < spans@.len() ==> (#[trigger] out@[i]).0 == spans@[i].0 && out@[i].1 == with_bg_fallback(
                spans@[i].1,
                bg,
            ),
{
    let mut out: Vec<(String, SpanStyle)> = Vec::new();
    let mut i: usize = 0;
    while i < spans.len()
        invariant
            i <= spans@.len(),
            out@.len() == i,
            forall|k: int|
                0 <= k < i ==> (#[trigger] out@[k]).0 == spans@[k].0 && out@[k].1 == with_bg_fallback(
                    spans@[k].1,
                    bg,
                ),
        decreases spans.len() - i,
    {
        let style = spans[i].1;
        let filled = match bg {
            Some(c) => if style.bg.is_none() {
                SpanStyle { bg: Some(c), ..style }
            } else {
                style
            },
            None => style,
        };
        out.push((spans[i].0.clone(), filled));
        i = i + 1;
    }
    out
}

/// One split row: the old side, the divider `│` in the gutter color, then
/// the new side.
pub fn joined_spans(left: Vec<(String, SpanStyle)>, right: Vec<(String, SpanStyle)>, theme: &Theme) -> (out: Vec<
    (String, SpanStyle),
>)
    ensures
        out@ == left@ + seq![(out@[left@.len() as int].0, SpanStyle { fg: Some(theme.gutter), bg: None, bold: false, dim: false })]
            + right@,
        out@[left@.len() as int].0@ == seq!['\u{2502}'],
{
    let mut out = left;
    let ghost l = out@;
    let mut bar = String::new();
    crate::text::push_char(&mut bar, '\u{2502}');
    assert(bar@ =~= seq!['\u{2502}']);
    out.push((bar, SpanStyle { fg: Some(theme.gutter), bg: None, bold: false, dim: false }));
    let mut rest = right;
    let ghost r = rest@;
    let n = rest.len();
    assert(r.len() == n);
    let mut k: usize = 0;
    let ghost base = out@;
    while rest.len() > 0
        invariant
            base.len() == l.len() + 1,
            out@ == base + r.take(k as int),
            rest@ == r.skip(k as int),
            k + rest@.len() == r.len(),
            r.len() <= usize::MAX,
        decreases rest.len(),
    {
        let x = rest.remove(0);
        assert(r[k as int] == x);
        out.push(x);
        k = k + 1;
        assert(out@ =~= base + r.take(k as int));
        assert(rest@ =~= r.skip(k as int));
    }
    assert(r.take(k as int) =~= r);
    out
}

} // verus!
