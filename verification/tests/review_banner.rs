use redquill::diff::DiffStat;
use redquill::review_banner::{banner_label, banner_text, stat_text};

/// The stat used by every test below unless it's specifically exercising a
/// different one.
fn sample_stat() -> DiffStat {
    DiffStat { added: 7, removed: 2 }
}

#[test]
fn never_exceeds_the_requested_width() {
    for width in [0u16, 1, 5, 10, 20, 30, 34, 35, 40, 79] {
        let text = banner_text("a-very-long-feature-branch-name", 4, 12, sample_stat(), width);
        assert!(
            text.chars().count() <= width as usize,
            "width {width}: {text:?} ({} chars)",
            text.chars().count()
        );
    }
}

#[test]
fn truncates_the_branch_name_with_an_ellipsis_on_a_narrow_terminal() {
    let text = banner_text("a-very-long-feature-branch-name", 4, 12, sample_stat(), 45);
    assert!(text.contains('\u{2026}'), "narrow banner must truncate the branch name: {text:?}");
    assert!(text.starts_with(" REVIEWING "));
    assert!(text.contains("\u{2014} q to end review"), "the hint must survive truncation: {text:?}");
    assert!(text.ends_with("4/12 "), "the progress count must survive truncation: {text:?}");
    assert!(!text.contains("a-very-long-feature-branch-name"), "the full branch name must have been shortened: {text:?}");
    assert_eq!(text.chars().count(), 45);
}

#[test]
fn a_wide_row_pads_the_count_to_the_far_edge() {
    let text = banner_text("feature", 1, 3, sample_stat(), 60);
    assert_eq!(text.chars().count(), 60);
    assert!(text.starts_with(" REVIEWING feature \u{2014} q to end review +7 -2 "));
    assert!(text.ends_with(" 1/3 "));
}

#[test]
fn a_row_narrower_than_the_chrome_is_hard_clipped() {
    let text = banner_text("feature", 1, 3, sample_stat(), 12);
    assert_eq!(text, " REVIEWING f");
}

#[test]
fn stat_text_is_plus_added_minus_removed() {
    assert_eq!(stat_text(DiffStat { added: 12, removed: 0 }), "+12 -0");
}

#[test]
fn stale_label_carries_the_marker() {
    assert_eq!(banner_label("redquill/pr/7", true), "redquill/pr/7 \u{26A0} STALE");
    assert_eq!(banner_label("redquill/pr/7", false), "redquill/pr/7");
}
