use redquill::sbs::{apply_bg_fallback, column_widths, fit_width, joined_spans};
use redquill::stat_display::SpanStyle;
use redquill::theme::{Color, Theme};

#[derive(Debug, Clone, Copy, PartialEq, Eq)]
enum Style {
    Plain,
    Bold,
}

fn span(text: &str, style: Style) -> (String, Style) {
    (text.to_string(), style)
}

fn total(spans: &[(String, Style)]) -> usize {
    spans.iter().map(|s| s.0.chars().count()).sum()
}

#[test]
fn fit_width_pads_short_content() {
    let fitted = fit_width(vec![span("hi", Style::Plain)], 5, Style::Plain);
    assert_eq!(total(&fitted), 5);
}

#[test]
fn fit_width_truncates_long_content() {
    let fitted = fit_width(vec![span("hello world", Style::Plain)], 5, Style::Plain);
    assert_eq!(total(&fitted), 5);
    assert_eq!(fitted[0].0, "hello");
}

#[test]
fn fit_width_zero_width_is_empty_and_does_not_panic() {
    let fitted = fit_width(vec![span("hello", Style::Plain)], 0, Style::Plain);
    assert!(fitted.is_empty());
}

#[test]
fn a_cut_span_keeps_its_style_and_later_spans_are_dropped() {
    let fitted = fit_width(
        vec![span("ab", Style::Plain), span("cdef", Style::Bold), span("gh", Style::Plain)],
        4,
        Style::Plain,
    );
    assert_eq!(fitted, vec![span("ab", Style::Plain), span("cd", Style::Bold)]);
}

#[test]
fn padding_uses_the_pad_style_and_counts_characters_not_bytes() {
    let fitted = fit_width(vec![span("\u{e9}t\u{e9}", Style::Bold)], 5, Style::Plain);
    assert_eq!(fitted, vec![span("\u{e9}t\u{e9}", Style::Bold), span("  ", Style::Plain)]);
}

#[test]
fn column_widths_split_around_the_divider() {
    assert_eq!(column_widths(81), (40, 40));
    assert_eq!(column_widths(80), (39, 40));
    assert_eq!(column_widths(1), (0, 0));
    assert_eq!(column_widths(0), (0, 0));
}

fn styled(text: &str, fg: Option<Color>, bg: Option<Color>) -> (String, SpanStyle) {
    (text.to_string(), SpanStyle { fg, bg, bold: false, dim: false })
}

#[test]
fn bg_fallback_fills_only_spans_without_their_own_background() {
    let spans = vec![
        styled("a", Some(Color::Red), None),
        styled("b", None, Some(Color::Blue)),
    ];
    let out = apply_bg_fallback(spans.clone(), Some(Color::Green));
    assert_eq!(out[0], styled("a", Some(Color::Red), Some(Color::Green)));
    assert_eq!(out[1], styled("b", None, Some(Color::Blue)));
    assert_eq!(apply_bg_fallback(spans.clone(), None), spans);
}

#[test]
fn joined_spans_put_the_divider_between_the_sides() {
    let theme = Theme::default();
    let out = joined_spans(vec![styled("old", None, None)], vec![styled("new", None, None)], &theme);
    let text: String = out.iter().map(|s| s.0.as_str()).collect();
    assert_eq!(text, "old\u{2502}new");
    assert_eq!(out[1].1.fg, Some(theme.gutter));
}
