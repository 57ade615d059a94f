use redquill::annotate::{AnnotationStore, Classification, Side, Target};
use redquill::diff::{DiffLine, FileChangeKind, FileDiff, Hunk, LineOrigin};
use redquill::rows::{anchor_row_index, build_rows, hunk_span, Row};

/// Reads a unified-diff patch into the diff model, the way the app's patch
/// parser does: change kind from the extended headers, then each
/// `@@ -a[,b] +c[,d] @@[ section]` hunk with its numbered body lines.
fn parse_patch(raw: &str, path: &str, old_path: Option<&str>, is_binary: bool) -> FileDiff {
    let mut kind = FileChangeKind::Modified;
    let mut hunks: Vec<Hunk> = Vec::new();
    let mut old_no = 0u32;
    let mut new_no = 0u32;
    for line in raw.lines() {
        if line.starts_with("@@ ") {
            let rest = &line[3..];
            let close = rest.find(" @@").expect("hunk header");
            let ranges = &rest[..close];
            let after = &rest[close + 3..];
            let mut parts = ranges.split(' ');
            let old = parts.next().unwrap().trim_start_matches('-');
            let new = parts.next().unwrap().trim_start_matches('+');
            let span = |s: &str| -> (u32, u32) {
                match s.split_once(',') {
                    Some((a, b)) => (a.parse().unwrap(), b.parse().unwrap()),
                    None => (s.parse().unwrap(), 1),
                }
            };
            let (old_start, old_count) = span(old);
            let (new_start, new_count) = span(new);
            let section = after.strip_prefix(' ').map(str::to_string).filter(|s| !s.is_empty());
            old_no = old_start;
            new_no = new_start;
            hunks.push(Hunk { old_start, old_count, new_start, new_count, section, lines: Vec::new() });
        } else if let Some(h) = hunks.last_mut() {
            if let Some(text) = line.strip_prefix(' ') {
                h.lines.push(DiffLine { origin: LineOrigin::Context, content: text.to_string(), old_line: Some(old_no), new_line: Some(new_no), no_newline: false });
                old_no += 1;
                new_no += 1;
            } else if let Some(text) = line.strip_prefix('-') {
                h.lines.push(DiffLine { origin: LineOrigin::Removed, content: text.to_string(), old_line: Some(old_no), new_line: None, no_newline: false });
                old_no += 1;
            } else if let Some(text) = line.strip_prefix('+') {
                h.lines.push(DiffLine { origin: LineOrigin::Added, content: text.to_string(), old_line: None, new_line: Some(new_no), no_newline: false });
                new_no += 1;
            } else if line.starts_with('\\') {
                if let Some(l) = h.lines.last_mut() {
                    l.no_newline = true;
                }
            }
        } else if line.starts_with("new file mode") {
            kind = FileChangeKind::Added;
        } else if line.starts_with("deleted file mode") {
            kind = FileChangeKind::Deleted;
        } else if line.starts_with("rename from") {
            kind = FileChangeKind::Renamed;
        }
    }
    FileDiff {
        path: path.to_string(),
        old_path: old_path.map(str::to_string),
        kind,
        is_binary,
        hunks: if is_binary { Vec::new() } else { hunks },
    }
}

fn file_diff(raw: &str, path: &str, is_binary: bool) -> FileDiff {
    parse_patch(raw, path, None, is_binary)
}

fn no_notes() -> AnnotationStore {
    AnnotationStore::new()
}

#[test]
fn builds_file_header_first() {
    let raw = "\
diff --git a/f.rs b/f.rs
index 1..2 100644
--- a/f.rs
+++ b/f.rs
@@ -1 +1 @@
-a
+b
";
    let diff = file_diff(raw, "f.rs", false);
    let rows = build_rows(&diff, &no_notes());
    assert_eq!(
        rows[0],
        Row::FileHeader {
            path: "f.rs".to_string(),
            old_path: None,
            kind: FileChangeKind::Modified,
            annotated: false,
        }
    );
}

#[test]
fn hunk_header_is_formatted_with_section() {
    let raw = "\
diff --git a/f.rs b/f.rs
index 1..2 100644
--- a/f.rs
+++ b/f.rs
@@ -10,2 +10,3 @@ fn foo() {
 context
+added
 context2
";
    let diff = file_diff(raw, "f.rs", false);
    let rows = build_rows(&diff, &no_notes());
    assert_eq!(
        rows[1],
        Row::HunkHeader {
            hunk_index: 0,
            text: "@@ -10,2 +10,3 @@ fn foo() {".to_string(),
            annotated: false,
        }
    );
}

#[test]
fn hunk_header_without_section_has_no_trailing_text() {
    let raw = "\
diff --git a/f.rs b/f.rs
index 1..2 100644
--- a/f.rs
+++ b/f.rs
@@ -1 +1 @@
-a
+b
";
    let diff = file_diff(raw, "f.rs", false);
    let rows = build_rows(&diff, &no_notes());
    let Row::HunkHeader { text, .. } = &rows[1] else {
        panic!("expected hunk header");
    };
    assert_eq!(text, "@@ -1,1 +1,1 @@");
}

#[test]
fn line_rows_carry_gutter_numbers_and_content() {
    let raw = "\
diff --git a/f.rs b/f.rs
index 111..222 100644
--- a/f.rs
+++ b/f.rs
@@ -1,3 +1,4 @@
 line1
-line2
+line2 mod
+line new
 line3
";
    let diff = file_diff(raw, "f.rs", false);
    let rows = build_rows(&diff, &no_notes());
    // FileHeader, HunkHeader, then 5 line rows.
    assert_eq!(rows.len(), 7);

    let Row::Line(context) = &rows[2] else {
        panic!("expected line row");
    };
    assert_eq!(context.old_line, Some(1));
    assert_eq!(context.new_line, Some(1));
    assert_eq!(context.origin, LineOrigin::Context);
    assert_eq!(context.content, "line1");
    assert_eq!(context.word_spans, None);
    assert!(!context.annotated);

    let Row::Line(removed) = &rows[3] else {
        panic!("expected line row");
    };
    assert_eq!(removed.old_line, Some(2));
    assert_eq!(removed.new_line, None);
    assert_eq!(removed.origin, LineOrigin::Removed);
}

#[test]
fn paired_lines_get_word_diff_spans() {
    let raw = "\
diff --git a/f.rs b/f.rs
index 111..222 100644
--- a/f.rs
+++ b/f.rs
@@ -1 +1 @@
-let x = foo;
+let x = bar;
";
    let diff = file_diff(raw, "f.rs", false);
    let rows = build_rows(&diff, &no_notes());

    let Row::Line(removed) = &rows[2] else {
        panic!("expected removed line row");
    };
    let removed_spans = removed.word_spans.as_ref().expect("removed spans");
    assert!(removed_spans.iter().any(|s| s.changed));

    let Row::Line(added) = &rows[3] else {
        panic!("expected added line row");
    };
    let added_spans = added.word_spans.as_ref().expect("added spans");
    assert!(added_spans.iter().any(|s| s.changed));
}

#[test]
fn unpaired_lines_have_no_word_spans() {
    let raw = "\
diff --git a/f.rs b/f.rs
index 111..222 100644
--- a/f.rs
+++ b/f.rs
@@ -1,2 +1,2 @@
-only removed
 context
";
    let diff = file_diff(raw, "f.rs", false);
    let rows = build_rows(&diff, &no_notes());
    let Row::Line(removed) = &rows[2] else {
        panic!("expected line row");
    };
    assert_eq!(removed.word_spans, None);
}

#[test]
fn binary_file_yields_single_placeholder_row() {
    let raw = "\
diff --git a/img.png b/img.png
index 1..2 100644
Binary files a/img.png and b/img.png differ
";
    let diff = file_diff(raw, "img.png", true);
    let rows = build_rows(&diff, &no_notes());
    assert_eq!(rows.len(), 2);
    assert!(matches!(rows[0], Row::FileHeader { .. }));
    assert_eq!(rows[1], Row::Binary);
}

#[test]
fn multiple_hunks_produce_independent_headers() {
    let raw = "\
diff --git a/f.rs b/f.rs
index 111..222 100644
--- a/f.rs
+++ b/f.rs
@@ -1,1 +1,1 @@
-a
+A
@@ -10,1 +10,1 @@
-j
+J
";
    let diff = file_diff(raw, "f.rs", false);
    let rows = build_rows(&diff, &no_notes());
    let hunk_headers: Vec<usize> = rows
        .iter()
        .enumerate()
        .filter_map(|(i, r)| matches!(r, Row::HunkHeader { .. }).then_some(i))
        .collect();
    assert_eq!(hunk_headers, vec![1, 4]);
    let Row::HunkHeader { hunk_index, .. } = &rows[4] else {
        panic!("expected hunk header");
    };
    assert_eq!(*hunk_index, 1);
}

fn raw_two_line_hunk() -> &'static str {
    "\
diff --git a/f.rs b/f.rs
index 111..222 100644
--- a/f.rs
+++ b/f.rs
@@ -1,2 +1,2 @@
-old1
+new1
 ctx
"
}

#[test]
fn line_annotation_marks_row_and_splices_display_after_it() {
    let diff = file_diff(raw_two_line_hunk(), "f.rs", false);
    let mut store = AnnotationStore::new();
    store
        .add(
            Target::line("f.rs", 1, Side::New),
            Classification::Question,
            "why change this?",
        )
        .unwrap();
    let rows = build_rows(&diff, &store);

    // rows: FileHeader(0), HunkHeader(1), Line old1(2), Line new1(3),
    // Annotation(4), Line ctx(5)
    let Row::Line(new1) = &rows[3] else {
        panic!("expected added line row");
    };
    assert!(new1.annotated);
    let Row::Line(old1) = &rows[2] else {
        panic!("expected removed line row");
    };
    assert!(!old1.annotated);

    match &rows[4] {
        Row::Annotation {
            text,
            classification,
            ..
        } => {
            assert_eq!(text, "why change this?");
            assert_eq!(*classification, Some(Classification::Question));
        }
        other => panic!("expected annotation row, got {other:?}"),
    }
    assert!(matches!(rows[5], Row::Line(_)));
}

#[test]
fn range_annotation_marks_every_covered_line_and_splices_after_last() {
    let raw = "\
diff --git a/f.rs b/f.rs
index 111..222 100644
--- a/f.rs
+++ b/f.rs
@@ -1,3 +1,3 @@
 a
+b
+c
";
    let diff = file_diff(raw, "f.rs", false);
    let mut store = AnnotationStore::new();
    store
        .add(
            Target::range("f.rs", 2, 3, Side::New).unwrap(),
            Classification::Nit,
            "extract helper",
        )
        .unwrap();
    let rows = build_rows(&diff, &store);
    // rows: FileHeader(0) HunkHeader(1) Line a(2) Line b(3) Line c(4) Annotation(5)
    let Row::Line(b) = &rows[3] else {
        panic!("expected line b");
    };
    assert!(b.annotated);
    let Row::Line(c) = &rows[4] else {
        panic!("expected line c");
    };
    assert!(c.annotated);
    assert!(matches!(rows[5], Row::Annotation { .. }));
}

#[test]
fn hunk_annotation_displays_under_hunk_header() {
    let diff = file_diff(raw_two_line_hunk(), "f.rs", false);
    let mut store = AnnotationStore::new();
    store
        .add(
            Target::hunk("f.rs", 1, 2).unwrap(),
            Classification::Praise,
            "clean",
        )
        .unwrap();
    let rows = build_rows(&diff, &store);
    // FileHeader(0) HunkHeader(1) Annotation(2) Line(3)...
    let Row::HunkHeader { annotated, .. } = &rows[1] else {
        panic!("expected hunk header");
    };
    assert!(annotated);
    assert!(matches!(rows[2], Row::Annotation { .. }));
}

#[test]
fn file_annotation_displays_under_file_header() {
    let diff = file_diff(raw_two_line_hunk(), "f.rs", false);
    let mut store = AnnotationStore::new();
    store
        .add(Target::file("f.rs"), Classification::Praise, "nice module")
        .unwrap();
    let rows = build_rows(&diff, &store);
    let Row::FileHeader { annotated, .. } = &rows[0] else {
        panic!("expected file header");
    };
    assert!(annotated);
    assert!(matches!(rows[1], Row::Annotation { .. }));
}

#[test]
fn multiline_body_produces_first_line_tagged_and_continuation_untagged() {
    let diff = file_diff(raw_two_line_hunk(), "f.rs", false);
    let mut store = AnnotationStore::new();
    store
        .add(Target::file("f.rs"), Classification::Issue, "first\nsecond")
        .unwrap();
    let rows = build_rows(&diff, &store);
    match &rows[1] {
        Row::Annotation {
            text,
            classification,
            ..
        } => {
            assert_eq!(text, "first");
            assert!(classification.is_some());
        }
        other => panic!("unexpected row {other:?}"),
    }
    match &rows[2] {
        Row::Annotation {
            text,
            classification,
            ..
        } => {
            assert_eq!(text, "second");
            assert!(classification.is_none());
        }
        other => panic!("unexpected row {other:?}"),
    }
}

#[test]
fn annotation_rows_are_not_addressable_other_rows_are() {
    let diff = file_diff(raw_two_line_hunk(), "f.rs", false);
    let mut store = AnnotationStore::new();
    store
        .add(Target::file("f.rs"), Classification::Issue, "note")
        .unwrap();
    let rows = build_rows(&diff, &store);
    assert!(rows[0].is_addressable());
    assert!(!rows[1].is_addressable());
    assert!(rows[2].is_addressable());
}

#[test]
fn hunk_span_uses_old_side_when_new_count_is_zero() {
    let raw = "\
diff --git a/gone.rs b/gone.rs
deleted file mode 100644
index 111..000
--- a/gone.rs
+++ /dev/null
@@ -1,3 +0,0 @@
-a
-b
-c
";
    let diff = file_diff(raw, "gone.rs", false);
    assert_eq!(hunk_span(&diff.hunks[0]), (1, 3));
}

#[test]
fn anchor_row_index_finds_file_hunk_and_line_targets() {
    let diff = file_diff(raw_two_line_hunk(), "f.rs", false);
    let rows = build_rows(&diff, &no_notes());

    assert_eq!(
        anchor_row_index(&diff, &rows, &Target::file("f.rs")),
        Some(0)
    );
    assert_eq!(
        anchor_row_index(&diff, &rows, &Target::hunk("f.rs", 1, 2).unwrap()),
        Some(1)
    );
    assert_eq!(
        anchor_row_index(&diff, &rows, &Target::line("f.rs", 1, Side::New)),
        Some(3)
    );
    assert_eq!(
        anchor_row_index(
            &diff,
            &rows,
            &Target::range("f.rs", 2, 2, Side::New).unwrap()
        ),
        Some(4)
    );
}

#[test]
fn anchor_row_index_returns_none_when_missing() {
    let diff = file_diff(raw_two_line_hunk(), "f.rs", false);
    let rows = build_rows(&diff, &no_notes());
    assert_eq!(
        anchor_row_index(&diff, &rows, &Target::line("f.rs", 99, Side::New)),
        None
    );
}

