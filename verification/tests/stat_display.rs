use redquill::diff::{DiffStat, StatDisplay};
use redquill::stat_display::{stat_display_spans, SpanStyle};
use redquill::theme::Theme;

#[test]
fn omitted_renders_nothing() {
    assert_eq!(stat_display_spans(StatDisplay::Omitted, &Theme::default()), None);
}

#[test]
fn binary_renders_a_dim_bin_placeholder() {
    let (spans, width) = stat_display_spans(StatDisplay::Binary, &Theme::default()).unwrap();
    let text: String = spans.iter().map(|s| s.0.as_str()).collect();
    assert_eq!(text, "bin");
    assert_eq!(width, 3);
}

#[test]
fn counts_renders_plus_and_minus_with_a_space_between() {
    let stat = DiffStat { added: 12, removed: 4 };
    let (spans, width) = stat_display_spans(StatDisplay::Counts(stat), &Theme::default()).unwrap();
    let text: String = spans.iter().map(|s| s.0.as_str()).collect();
    assert_eq!(text, "+12 -4");
    assert_eq!(width, "+12".len() + 1 + "-4".len());
}

#[test]
fn binary_placeholder_is_dimmed_in_the_placeholder_color() {
    let theme = Theme::default();
    let (spans, _) = stat_display_spans(StatDisplay::Binary, &theme).unwrap();
    assert_eq!(
        spans[0].1,
        SpanStyle { fg: Some(theme.binary_placeholder), bg: None, bold: false, dim: true }
    );
}

#[test]
fn counts_take_the_added_and_deleted_colors_and_zero_shows() {
    let theme = Theme::default();
    let stat = DiffStat { added: 0, removed: 1234 };
    let (spans, width) = stat_display_spans(StatDisplay::Counts(stat), &theme).unwrap();
    assert_eq!(spans.len(), 3);
    assert_eq!(spans[0].0, "+0");
    assert_eq!(spans[0].1.fg, Some(theme.kind_added));
    assert_eq!(spans[1].0, " ");
    assert_eq!(spans[1].1.fg, None);
    assert_eq!(spans[2].0, "-1234");
    assert_eq!(spans[2].1.fg, Some(theme.kind_deleted));
    assert_eq!(width, 8);
}
