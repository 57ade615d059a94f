use redquill::textwrap::{layout, row_str, VisualRow};

fn lines(text: &str) -> Vec<String> {
    text.split('\n').map(str::to_string).collect()
}

#[test]
fn short_line_is_one_row() {
    let l = lines("hello");
    let layout = layout(&l, 20);
    assert_eq!(layout.rows.len(), 1);
    assert_eq!(row_str("hello", &layout.rows[0]), "hello");
}

#[test]
fn empty_buffer_yields_one_empty_row() {
    let l = lines("");
    let layout = layout(&l, 20);
    assert_eq!(layout.rows.len(), 1);
    assert_eq!(
        layout.rows[0],
        VisualRow {
            logical_line: 0,
            start_col: 0,
            end_col: 0
        }
    );
}

#[test]
fn wraps_at_word_boundary() {
    // width 10: "hello " (6) fits, "world" would overflow → break after
    // the space.
    let l = lines("hello world");
    let layout = layout(&l, 10);
    assert_eq!(layout.rows.len(), 2);
    assert_eq!(row_str("hello world", &layout.rows[0]), "hello ");
    assert_eq!(row_str("hello world", &layout.rows[1]), "world");
}

#[test]
fn rows_partition_the_line_contiguously() {
    let l = lines("the quick brown fox jumps");
    let layout = layout(&l, 8);
    // Every row belongs to line 0, and ranges chain end→start with no gap
    // or overlap, covering [0, len).
    let len = "the quick brown fox jumps".chars().count();
    let mut expected_start = 0;
    for r in &layout.rows {
        assert_eq!(r.logical_line, 0);
        assert_eq!(r.start_col, expected_start);
        expected_start = r.end_col;
    }
    assert_eq!(expected_start, len);
}

#[test]
fn word_wider_than_width_hard_splits() {
    let l = lines("supercalifragilistic");
    let layout = layout(&l, 5);
    // 20 chars / width 5 = 4 rows, each exactly 5 wide.
    assert_eq!(layout.rows.len(), 4);
    for r in &layout.rows {
        assert_eq!(r.end_col - r.start_col, 5);
    }
    assert_eq!(row_str("supercalifragilistic", &layout.rows[0]), "super");
}

#[test]
fn width_zero_and_one_do_not_panic() {
    let l = lines("abc");
    let z = layout(&l, 0);
    assert_eq!(z.rows.len(), 3); // each char its own row (treated as w=1)
    let one = layout(&l, 1);
    assert_eq!(one.rows.len(), 3);
}

#[test]
fn multiple_logical_lines_keep_their_indices() {
    let l = lines("aaa\nbbbbbbbb");
    let layout = layout(&l, 4);
    assert_eq!(layout.rows[0].logical_line, 0);
    // "bbbbbbbb" (8) at width 4 → two rows, both logical line 1.
    assert_eq!(layout.rows[1].logical_line, 1);
    assert_eq!(layout.rows[2].logical_line, 1);
}

#[test]
fn cursor_maps_within_a_wrapped_row() {
    let l = lines("hello world");
    let layout = layout(&l, 10);
    // col 2 is on row 0 at visual col 2.
    assert_eq!(layout.cursor_position(0, 2), (0, 2));
    // col 6 is the start of "world" on row 1 at visual col 0.
    assert_eq!(layout.cursor_position(0, 6), (1, 0));
    // col 8 is "r" of "world": row 1, visual col 2.
    assert_eq!(layout.cursor_position(0, 8), (1, 2));
}

#[test]
fn cursor_at_line_end_maps_to_last_rows_end() {
    let l = lines("hello world");
    let layout = layout(&l, 10);
    // col 11 == line length: last row ("world") end, visual col 5.
    assert_eq!(layout.cursor_position(0, 11), (1, 5));
}

#[test]
fn cursor_on_second_logical_line() {
    let l = lines("aa\nbbbb");
    let layout = layout(&l, 20);
    assert_eq!(layout.cursor_position(1, 3), (1, 3));
}

#[test]
fn cursor_on_empty_line() {
    let l = lines("a\n\nb");
    let layout = layout(&l, 20);
    // Line 1 is empty; cursor col 0 maps to its (single) visual row col 0.
    let (vrow, vcol) = layout.cursor_position(1, 0);
    assert_eq!(layout.rows[vrow].logical_line, 1);
    assert_eq!(vcol, 0);
}

#[test]
fn multibyte_row_str_slices_by_char() {
    let l = lines("héllo wörld");
    let layout = layout(&l, 7);
    // "héllo " (6 chars) fits at width 7? 11 chars total, width 7:
    // remaining 11 > 7, last whitespace within [0,7) is index 5 → break
    // after it. Row 0 = "héllo ".
    assert_eq!(row_str("héllo wörld", &layout.rows[0]), "héllo ");
    assert_eq!(row_str("héllo wörld", &layout.rows[1]), "wörld");
}

