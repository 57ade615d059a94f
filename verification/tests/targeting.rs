use redquill::annotate::{AnnotationStore, Side, Target};
use redquill::diff::{DiffLine, FileChangeKind, FileDiff, Hunk, LineOrigin};
use redquill::rows::{build_rows, hunk_span, Row};
use redquill::targeting::{as_worktree_target, editor_target_for_cursor, target_for_cursor, target_for_visual};

fn parse_patch(raw: &str, path: &str, old_path: Option<&str>, is_binary: bool) -> FileDiff {
    let mut kind = FileChangeKind::Modified;
    let mut hunks: Vec<Hunk> = Vec::new();
    let mut old_no = 0u32;
    let mut new_no = 0u32;
    for line in raw.lines() {
        if line.starts_with("@@ ") {
            let rest = &line[3..];
            let close = rest.find(" @@").expect("hunk header");
            let ranges = &rest[..close];
            let after = &rest[close + 3..];
            let mut parts = ranges.split(' ');
            let old = parts.next().unwrap().trim_start_matches('-');
            let new = parts.next().unwrap().trim_start_matches('+');
            let span = |s: &str| -> (u32, u32) {
                match s.split_once(',') {
                    Some((a, b)) => (a.parse().unwrap(), b.parse().unwrap()),
                    None => (s.parse().unwrap(), 1),
                }
            };
            let (old_start, old_count) = span(old);
            let (new_start, new_count) = span(new);
            let section = after.strip_prefix(' ').map(str::to_string).filter(|s| !s.is_empty());
            old_no = old_start;
            new_no = new_start;
            hunks.push(Hunk { old_start, old_count, new_start, new_count, section, lines: Vec::new() });
        } else if let Some(h) = hunks.last_mut() {
            if let Some(text) = line.strip_prefix(' ') {
                h.lines.push(DiffLine { origin: LineOrigin::Context, content: text.to_string(), old_line: Some(old_no), new_line: Some(new_no), no_newline: false });
                old_no += 1;
                new_no += 1;
            } else if let Some(text) = line.strip_prefix('-') {
                h.lines.push(DiffLine { origin: LineOrigin::Removed, content: text.to_string(), old_line: Some(old_no), new_line: None, no_newline: false });
                old_no += 1;
            } else if let Some(text) = line.strip_prefix('+') {
                h.lines.push(DiffLine { origin: LineOrigin::Added, content: text.to_string(), old_line: None, new_line: Some(new_no), no_newline: false });
                new_no += 1;
            } else if line.starts_with('\\') {
                if let Some(l) = h.lines.last_mut() {
                    l.no_newline = true;
                }
            }
        } else if line.starts_with("new file mode") {
            kind = FileChangeKind::Added;
        } else if line.starts_with("deleted file mode") {
            kind = FileChangeKind::Deleted;
        } else if line.starts_with("rename from") {
            kind = FileChangeKind::Renamed;
        }
    }
    FileDiff {
        path: path.to_string(),
        old_path: old_path.map(str::to_string),
        kind,
        is_binary,
        hunks: if is_binary { Vec::new() } else { hunks },
    }
}

fn file_diff(raw: &str, path: &str) -> FileDiff {
    parse_patch(raw, path, None, false)
}

/// Builds the single-file row model the same way the diff pane does, so the
/// targeting functions see the exact rows the cursor addresses.
fn rows_for(file: &FileDiff) -> Vec<Row> {
    build_rows(file, &AnnotationStore::new())
}

fn sample() -> &'static str {
    "\
diff --git a/f.rs b/f.rs
index 1..2 100644
--- a/f.rs
+++ b/f.rs
@@ -1,3 +1,3 @@
 ctx1
-old2
+new2
 ctx3
"
}

#[test]
fn cursor_on_file_header_yields_file_target() {
    let file = file_diff(sample(), "f.rs");
    let rows = rows_for(&file);
    assert!(matches!(rows[0], Row::FileHeader { .. }));
    assert_eq!(target_for_cursor(&file, &rows, 0), Some(Target::file("f.rs")));
}

#[test]
fn cursor_on_hunk_header_yields_hunk_target() {
    let file = file_diff(sample(), "f.rs");
    let rows = rows_for(&file);
    assert!(matches!(rows[1], Row::HunkHeader { .. }));
    let (start, end) = hunk_span(&file.hunks[0]);
    // The span ends on ctx3 (new 3 / old 3), so the old-side counterpart
    // rides along.
    assert_eq!(target_for_cursor(&file, &rows, 1), Target::hunk_with_other_end("f.rs", start, end, Some(3)).ok());
}

#[test]
fn hunk_ending_on_an_added_line_carries_no_counterpart() {
    let raw = "\
diff --git a/f.rs b/f.rs
index 1..2 100644
--- a/f.rs
+++ b/f.rs
@@ -1,1 +1,3 @@
 a
+b
+c
";
    let file = file_diff(raw, "f.rs");
    let rows = rows_for(&file);
    assert!(matches!(rows[1], Row::HunkHeader { .. }));
    let (start, end) = hunk_span(&file.hunks[0]);
    assert_eq!(target_for_cursor(&file, &rows, 1), Target::hunk_with_other_end("f.rs", start, end, None).ok());
}

#[test]
fn cursor_on_context_line_targets_new_side() {
    let file = file_diff(sample(), "f.rs");
    let rows = rows_for(&file);
    // rows: FileHeader(0) HunkHeader(1) ctx1(2) old2(3) new2(4) ctx3(5)
    let Row::Line(ctx1) = &rows[2] else {
        panic!("expected line row");
    };
    assert_eq!(ctx1.new_line, Some(1));
    assert_eq!(target_for_cursor(&file, &rows, 2), Some(Target::line_with_other("f.rs", 1, Side::New, Some(1))));
}

#[test]
fn cursor_on_context_line_after_edits_records_the_shifted_old_counterpart() {
    let raw = "\
diff --git a/f.rs b/f.rs
index 1..2 100644
--- a/f.rs
+++ b/f.rs
@@ -1,2 +1,3 @@
 a
+b
 c
";
    let file = file_diff(raw, "f.rs");
    let rows = rows_for(&file);
    // rows: FileHeader(0) HunkHeader(1) a(2) b(3) c(4); c is new 3, old 2.
    assert_eq!(target_for_cursor(&file, &rows, 4), Some(Target::line_with_other("f.rs", 3, Side::New, Some(2))));
}

#[test]
fn cursor_on_removed_line_targets_old_side() {
    let file = file_diff(sample(), "f.rs");
    let rows = rows_for(&file);
    let Row::Line(old2) = &rows[3] else {
        panic!("expected removed line row");
    };
    assert_eq!(old2.origin, LineOrigin::Removed);
    assert_eq!(old2.old_line, Some(2));
    assert_eq!(target_for_cursor(&file, &rows, 3), Some(Target::line("f.rs", 2, Side::Old)));
}

#[test]
fn cursor_on_added_line_targets_new_side() {
    let file = file_diff(sample(), "f.rs");
    let rows = rows_for(&file);
    let Row::Line(new2) = &rows[4] else {
        panic!("expected added line row");
    };
    assert_eq!(new2.origin, LineOrigin::Added);
    assert_eq!(new2.new_line, Some(2));
    assert_eq!(target_for_cursor(&file, &rows, 4), Some(Target::line("f.rs", 2, Side::New)));
}

#[test]
fn cursor_out_of_bounds_yields_none() {
    let file = file_diff(sample(), "f.rs");
    let rows = rows_for(&file);
    assert_eq!(target_for_cursor(&file, &rows, rows.len()), None);
}

#[test]
fn visual_range_over_added_lines_targets_new_side_range() {
    let raw = "\
diff --git a/f.rs b/f.rs
index 1..2 100644
--- a/f.rs
+++ b/f.rs
@@ -1,1 +1,3 @@
 a
+b
+c
";
    let file = file_diff(raw, "f.rs");
    let rows = rows_for(&file);
    // rows: FileHeader(0) HunkHeader(1) a(2) b(3) c(4)
    assert_eq!(target_for_visual(&file, &rows, 4, 2), Target::range("f.rs", 1, 3, Side::New).ok());
    // Order-independence: anchor after cursor gives the same range.
    assert_eq!(target_for_visual(&file, &rows, 2, 4), Target::range("f.rs", 1, 3, Side::New).ok());
}

#[test]
fn visual_range_over_only_removed_lines_targets_old_side() {
    let raw = "\
diff --git a/f.rs b/f.rs
index 1..2 100644
--- a/f.rs
+++ b/f.rs
@@ -1,3 +1,1 @@
-x
-y
 z
";
    let file = file_diff(raw, "f.rs");
    let rows = rows_for(&file);
    // rows: FileHeader(0) HunkHeader(1) x(2, old 1) y(3, old 2) z(4)
    assert_eq!(target_for_visual(&file, &rows, 3, 2), Target::range("f.rs", 1, 2, Side::Old).ok());
}

#[test]
fn visual_range_ending_on_a_context_line_records_the_counterpart() {
    let file = file_diff(sample(), "f.rs");
    let rows = rows_for(&file);
    assert_eq!(
        target_for_visual(&file, &rows, 5, 2),
        Target::range_with_other_end("f.rs", 1, 3, Side::New, Some(3)).ok()
    );
}

#[test]
fn visual_selection_with_no_line_rows_yields_none() {
    let file = file_diff(sample(), "f.rs");
    let rows = rows_for(&file);
    // rows 0..=1 are FileHeader and HunkHeader — no line rows.
    assert_eq!(target_for_visual(&file, &rows, 0, 1), None);
}

#[test]
fn editor_target_on_file_header_is_line_one() {
    let file = file_diff(sample(), "f.rs");
    let rows = rows_for(&file);
    assert!(matches!(rows[0], Row::FileHeader { .. }));
    assert_eq!(editor_target_for_cursor(&file, &rows, 0), Some(("f.rs".to_string(), 1)));
}

#[test]
fn editor_target_on_hunk_header_is_line_one() {
    let file = file_diff(sample(), "f.rs");
    let rows = rows_for(&file);
    assert!(matches!(rows[1], Row::HunkHeader { .. }));
    assert_eq!(editor_target_for_cursor(&file, &rows, 1), Some(("f.rs".to_string(), 1)));
}

#[test]
fn editor_target_on_context_line_uses_new_line() {
    let file = file_diff(sample(), "f.rs");
    let rows = rows_for(&file);
    assert_eq!(editor_target_for_cursor(&file, &rows, 2), Some(("f.rs".to_string(), 1)));
}

#[test]
fn editor_target_on_added_line_uses_new_line() {
    let file = file_diff(sample(), "f.rs");
    let rows = rows_for(&file);
    assert_eq!(editor_target_for_cursor(&file, &rows, 4), Some(("f.rs".to_string(), 2)));
}

#[test]
fn editor_target_on_removed_line_falls_back_to_line_one() {
    let file = file_diff(sample(), "f.rs");
    let rows = rows_for(&file);
    let Row::Line(old2) = &rows[3] else {
        panic!("expected removed line row");
    };
    assert_eq!(old2.origin, LineOrigin::Removed);
    assert_eq!(editor_target_for_cursor(&file, &rows, 3), Some(("f.rs".to_string(), 1)));
}

#[test]
fn editor_target_out_of_bounds_yields_none() {
    let file = file_diff(sample(), "f.rs");
    let rows = rows_for(&file);
    assert_eq!(editor_target_for_cursor(&file, &rows, rows.len()), None);
}

#[test]
fn as_worktree_target_converts_line_to_worktree_line() {
    assert_eq!(as_worktree_target(Target::line("docs/notes.md", 44, Side::New)), Target::worktree_line("docs/notes.md", 44));
    assert_eq!(as_worktree_target(Target::line("docs/notes.md", 44, Side::Old)), Target::worktree_line("docs/notes.md", 44));
}

#[test]
fn as_worktree_target_converts_range_to_worktree_range() {
    assert_eq!(
        as_worktree_target(Target::range("docs/notes.md", 10, 20, Side::New).unwrap()),
        Target::worktree_range("docs/notes.md", 10, 20).unwrap()
    );
}

#[test]
fn as_worktree_target_converts_hunk_to_worktree_range_over_the_same_span() {
    assert_eq!(
        as_worktree_target(Target::hunk("docs/notes.md", 1, 5).unwrap()),
        Target::worktree_range("docs/notes.md", 1, 5).unwrap()
    );
}

#[test]
fn as_worktree_target_leaves_file_target_unchanged() {
    assert_eq!(as_worktree_target(Target::file("docs/notes.md")), Target::file("docs/notes.md"));
}

#[test]
fn as_worktree_target_is_idempotent_on_worktree_targets() {
    assert_eq!(as_worktree_target(Target::worktree_line("docs/notes.md", 3)), Target::worktree_line("docs/notes.md", 3));
    assert_eq!(
        as_worktree_target(Target::worktree_range("docs/notes.md", 3, 4).unwrap()),
        Target::worktree_range("docs/notes.md", 3, 4).unwrap()
    );
}

#[test]
fn cursor_on_binary_placeholder_yields_file_target() {
    let file = FileDiff {
        path: "img.png".to_string(),
        old_path: None,
        kind: FileChangeKind::Modified,
        is_binary: true,
        hunks: Vec::new(),
    };
    let rows = rows_for(&file);
    let binary = rows.iter().position(|r| matches!(r, Row::Binary)).expect("binary row");
    assert_eq!(target_for_cursor(&file, &rows, binary), Some(Target::file("img.png")));
    assert_eq!(editor_target_for_cursor(&file, &rows, binary), None);
}

#[test]
fn visual_range_mixing_removed_and_added_lines_uses_new_side_numbers() {
    let file = file_diff(sample(), "f.rs");
    let rows = rows_for(&file);
    // old2(3) and new2(4): the removed line does not count on the new side.
    assert_eq!(target_for_visual(&file, &rows, 3, 4), Target::range("f.rs", 2, 2, Side::New).ok());
}
