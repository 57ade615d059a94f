//! The `+A -R` line-change display (or `bin`, or nothing) shared by every
//! changed-file surface, as styled spans with their total width, so that
//! right-aligned layouts can pad exactly.
use vstd::prelude::*;

use crate::decimal::{dec, digits_of, lemma_dec_len_u64, push_u64};
use crate::diff::{DiffStat, StatDisplay};
use crate::text::push_char;
use crate::theme::{Color, Theme};

verus! {

/// How a span of text looks: its colors and emphasis.
#[derive(Debug, Clone, Copy, PartialEq, Eq)]
pub struct SpanStyle {
    /// The foreground color, if set.
    pub fg: Option<Color>,
    /// The background color, if set.
    pub bg: Option<Color>,
    /// Bold text.
    pub bold: bool,
    /// Dimmed text.
    pub dim: bool,
}

/// The style that sets nothing.
pub open spec fn plain() -> SpanStyle {
    SpanStyle { fg: None, bg: None, bold: false, dim: false }
}

/// The style with foreground `c` and nothing else.
pub open spec fn fg_only(c: Color) -> SpanStyle {
    SpanStyle { fg: Some(c), ..plain() }
}

/// The spans of a display: `bin` dimmed in the binary-placeholder color;
/// `+A` in the added color, a plain space and `-R` in the deleted color;
/// nothing for an omitted display.
pub open spec fn stat_spans_spec(display: StatDisplay, theme: Theme) -> Option<Seq<(Seq<char>, SpanStyle)>> {
    match display {
        StatDisplay::Omitted => None,
        StatDisplay::Binary => Some(
            seq![(seq!['b', 'i', 'n'], SpanStyle { dim: true, ..fg_only(theme.binary_placeholder) })],
        ),
        StatDisplay::Counts(stat) => Some(
            seq![
                (seq!['+'] + dec(stat.added as nat), fg_only(theme.kind_added)),
                (seq![' '], plain()),
                (seq!['-'] + dec(stat.removed as nat), fg_only(theme.kind_deleted)),
            ],
        ),
    }
}

/// The total number of characters of `spans`.
pub open spec fn spans_width(spans: Seq<(Seq<char>, SpanStyle)>) -> int
    decreases spans.len(),
{
    if spans.len() == 0 {
        0
    } else {
        spans_width(spans.drop_last()) + spans.last().0.len()
    }
}

/// The spans of `display` (see [`stat_spans_spec`]) with their total
/// width in characters; none for an omitted display.
pub fn stat_display_spans(display: StatDisplay, theme: &Theme) -> (r: Option<(Vec<(String, SpanStyle)>, usize)>)
    ensures
        match r {
            None => stat_spans_spec(display, *theme) is None,
            Some((spans, width)) => {
                &&& stat_spans_spec(display, *theme) == Some(
                    spans@.map_values(|s: (String, SpanStyle)| (s.0@, s.1)),
                )
                &&& width == spans_width(stat_spans_spec(display, *theme)->0)
            },
        },
{
    match display {
        StatDisplay::Omitted => None,
        StatDisplay::Binary => {
            let style = SpanStyle { fg: Some(theme.binary_placeholder), bg: None, bold: false, dim: true };
            let text = String::from_str("bin");
            proof {
                reveal_strlit("bin");
            }
            assert(text@ =~= seq!['b', 'i', 'n']);
            let spans = vec![(text, style)];
            let ghost want = stat_spans_spec(display, *theme)->0;
            assert(spans@.map_values(|s: (String, SpanStyle)| (s.0@, s.1)) =~= want);
            assert(want.drop_last().len() == 0);
            assert(spans_width(want) == spans_width(want.drop_last()) + want[0].0.len());
            Some((spans, 3))
        },
        StatDisplay::Counts(stat) => {
            let mut added = String::new();
            push_char(&mut added, '+');
            push_u64(&mut added, stat.added as u64);
            let mut removed = String::new();
            push_char(&mut removed, '-');
            push_u64(&mut removed, stat.removed as u64);
            let da = digits_of(stat.added as u64).len();
            let dr = digits_of(stat.removed as u64).len();
            proof {
                lemma_dec_len_u64(stat.added as u64);
                lemma_dec_len_u64(stat.removed as u64);
            }
            let width = 1 + da + 1 + 1 + dr;
            let mut space = String::new();
            push_char(&mut space, ' ');
            let spans = vec![
                (added, SpanStyle { fg: Some(theme.kind_added), bg: None, bold: false, dim: false }),
                (space, SpanStyle { fg: None, bg: None, bold: false, dim: false }),
                (removed, SpanStyle { fg: Some(theme.kind_deleted), bg: None, bold: false, dim: false }),
            ];
            let ghost want = stat_spans_spec(display, *theme)->0;
            proof {
                assert(spans@.map_values(|s: (String, SpanStyle)| (s.0@, s.1)) =~= want);
                assert(want.drop_last().drop_last().drop_last().len() == 0);
                assert(spans_width(want) == spans_width(want.drop_last()) + want[2].0.len());
                assert(spans_width(want.drop_last()) == spans_width(want.drop_last().drop_last()) + want[1].0.len());
                assert(spans_width(want.drop_last().drop_last()) == spans_width(want.drop_last().drop_last().drop_last()) + want[0].0.len());
                assert(width == spans_width(want));
            }
            Some((spans, width))
        },
    }
}

} // verus!
