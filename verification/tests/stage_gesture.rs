use std::cell::RefCell;

use redquill::app::{App, Mode};
use redquill::diff::{DiffLine, FileChangeKind, FileDiff, Hunk, LineOrigin};
use redquill::git::{DiffTarget, FileStatus, GitError, RawFilePatch};
use redquill::stage_ops::StageOps;
use redquill::staging::StageGesture;

fn parse_patch(raw: &str, path: &str, old_path: Option<&str>, is_binary: bool) -> FileDiff {
    let mut kind = FileChangeKind::Modified;
    let mut hunks: Vec<Hunk> = Vec::new();
    let mut old_no = 0u32;
    let mut new_no = 0u32;
    for line in raw.lines() {
        if line.starts_with("@@ ") {
            let rest = &line[3..];
            let close = rest.find(" @@").expect("hunk header");
            let ranges = &rest[..close];
            let after = &rest[close + 3..];
            let mut parts = ranges.split(' ');
            let old = parts.next().unwrap().trim_start_matches('-');
            let new = parts.next().unwrap().trim_start_matches('+');
            let span = |s: &str| -> (u32, u32) {
                match s.split_once(',') {
                    Some((a, b)) => (a.parse().unwrap(), b.parse().unwrap()),
                    None => (s.parse().unwrap(), 1),
                }
            };
            let (old_start, old_count) = span(old);
            let (new_start, new_count) = span(new);
            let section = after.strip_prefix(' ').map(str::to_string).filter(|s| !s.is_empty());
            old_no = old_start;
            new_no = new_start;
            hunks.push(Hunk { old_start, old_count, new_start, new_count, section, lines: Vec::new() });
        } else if let Some(h) = hunks.last_mut() {
            if let Some(text) = line.strip_prefix(' ') {
                h.lines.push(DiffLine { origin: LineOrigin::Context, content: text.to_string(), old_line: Some(old_no), new_line: Some(new_no), no_newline: false });
                old_no += 1;
                new_no += 1;
            } else if let Some(text) = line.strip_prefix('-') {
                h.lines.push(DiffLine { origin: LineOrigin::Removed, content: text.to_string(), old_line: Some(old_no), new_line: None, no_newline: false });
                old_no += 1;
            } else if let Some(text) = line.strip_prefix('+') {
                h.lines.push(DiffLine { origin: LineOrigin::Added, content: text.to_string(), old_line: None, new_line: Some(new_no), no_newline: false });
                new_no += 1;
            } else if line.starts_with('\\') {
                if let Some(l) = h.lines.last_mut() {
                    l.no_newline = true;
                }
            }
        } else if line.starts_with("new file mode") {
            kind = FileChangeKind::Added;
        } else if line.starts_with("deleted file mode") {
            kind = FileChangeKind::Deleted;
        } else if line.starts_with("rename from") {
            kind = FileChangeKind::Renamed;
        }
    }
    FileDiff {
        path: path.to_string(),
        old_path: old_path.map(str::to_string),
        kind,
        is_binary,
        hunks: if is_binary { Vec::new() } else { hunks },
    }
}

const RAW: &str = "\
diff --git a/f.rs b/f.rs
index 1..2 100644
--- a/f.rs
+++ b/f.rs
@@ -1,2 +1,2 @@
 keep
-old
+new
";

/// Every call the gesture made, as text.
#[derive(Default)]
struct Calls(RefCell<Vec<String>>);

struct RecordingOps {
    calls: Calls,
    fail: bool,
}

impl RecordingOps {
    fn new() -> RecordingOps {
        RecordingOps { calls: Calls::default(), fail: false }
    }
    fn log(&self) -> Vec<String> {
        self.calls.0.borrow().clone()
    }
    fn answer(&self, call: String) -> Result<(), GitError> {
        self.calls.0.borrow_mut().push(call);
        if self.fail {
            Err(GitError::Parse("index locked".to_string()))
        } else {
            Ok(())
        }
    }
}

impl StageOps for RecordingOps {
    fn status(&self) -> Result<Vec<FileStatus>, GitError> {
        self.calls.0.borrow_mut().push("status".to_string());
        Ok(Vec::new())
    }
    fn stage_file(&self, path: &str) -> Result<(), GitError> {
        self.answer(format!("stage {path}"))
    }
    fn unstage_file(&self, path: &str) -> Result<(), GitError> {
        self.answer(format!("unstage {path}"))
    }
    fn apply_hunk(&self, raw: &RawFilePatch, hunk_index: usize, reverse: bool) -> Result<(), GitError> {
        self.answer(format!("hunk {} {hunk_index} {reverse}", raw.path))
    }
    fn apply_lines(
        &self,
        raw: &RawFilePatch,
        hunk_index: usize,
        lines: &[usize],
        reverse: bool,
    ) -> Result<(), GitError> {
        self.answer(format!("lines {} {hunk_index} {lines:?} {reverse}", raw.path))
    }
}

fn no_ops() -> Option<&'static RecordingOps> {
    None
}

/// An app over `f.rs` with its raw patch, rows:
/// FileHeader(0) HunkHeader(1) " keep"(2) "-old"(3) "+new"(4).
fn app() -> App {
    let mut app = App::new(vec![parse_patch(RAW, "f.rs", None, false)]);
    app.patches = vec![Some(RawFilePatch {
        path: "f.rs".to_string(),
        old_path: None,
        raw: RAW.to_string(),
        is_binary: false,
    })];
    app
}

#[test]
fn space_on_a_hunk_line_stages_that_hunk() {
    let ops = RecordingOps::new();
    let mut app = app();
    app.view.cursor = 3;
    assert!(app.toggle_stage(Some(&ops)));
    assert_eq!(ops.log(), vec!["hunk f.rs 0 false".to_string()]);
    assert_eq!(app.status_message.as_deref(), Some("staged hunk"));
}

#[test]
fn space_on_the_file_header_stages_the_whole_file() {
    let ops = RecordingOps::new();
    let mut app = app();
    app.view.cursor = 0;
    assert!(app.toggle_stage(Some(&ops)));
    assert_eq!(ops.log(), vec!["stage f.rs".to_string()]);
    assert_eq!(app.status_message.as_deref(), Some("staged f.rs"));
}

#[test]
fn the_staged_view_unstages_in_reverse() {
    let ops = RecordingOps::new();
    let mut app = app();
    app.target = DiffTarget::Staged;
    app.view.cursor = 1;
    assert!(app.toggle_stage(Some(&ops)));
    assert_eq!(ops.log(), vec!["hunk f.rs 0 true".to_string()]);
    assert_eq!(app.status_message.as_deref(), Some("unstaged hunk"));
}

#[test]
fn a_visual_selection_stages_its_changed_lines_and_drops_the_selection() {
    let ops = RecordingOps::new();
    let mut app = app();
    app.view.cursor = 4;
    app.mode = Mode::Visual { anchor: 2 };
    assert!(app.toggle_stage(Some(&ops)));
    assert_eq!(ops.log(), vec!["lines f.rs 0 [1, 2] false".to_string()]);
    assert_eq!(app.status_message.as_deref(), Some("staged 2 lines"));
    assert_eq!(app.mode, Mode::Normal);
}

#[test]
fn a_single_line_selection_reads_singular() {
    let ops = RecordingOps::new();
    let mut app = app();
    app.view.cursor = 4;
    app.mode = Mode::Visual { anchor: 4 };
    assert!(app.toggle_stage(Some(&ops)));
    assert_eq!(app.status_message.as_deref(), Some("staged 1 line"));
}

#[test]
fn a_context_only_selection_says_why_and_runs_nothing() {
    let ops = RecordingOps::new();
    let mut app = app();
    app.view.cursor = 2;
    app.mode = Mode::Visual { anchor: 2 };
    assert!(!app.toggle_stage(Some(&ops)));
    assert!(ops.log().is_empty());
    assert_eq!(app.status_message.as_deref(), Some("no changed lines in selection"));
    assert_eq!(app.mode, Mode::Visual { anchor: 2 });
}

#[test]
fn a_file_without_a_raw_patch_always_stages_whole() {
    let ops = RecordingOps::new();
    let mut app = app();
    app.patches = vec![None];
    app.view.cursor = 3;
    assert!(app.toggle_stage(Some(&ops)));
    assert_eq!(ops.log(), vec!["stage f.rs".to_string()]);
}

#[test]
fn the_panel_gesture_is_always_whole_file() {
    let ops = RecordingOps::new();
    let mut app = app();
    app.view.cursor = 3;
    assert!(app.toggle_stage_whole_file(Some(&ops)));
    assert_eq!(ops.log(), vec!["stage f.rs".to_string()]);
}

#[test]
fn a_read_only_target_refuses_staging() {
    let ops = RecordingOps::new();
    let mut app = app();
    app.target = DiffTarget::Commit("abc".to_string());
    assert!(!app.toggle_stage(Some(&ops)));
    assert!(ops.log().is_empty());
    assert_eq!(app.status_message.as_deref(), Some("read-only diff target"));
}

#[test]
fn staging_without_a_backend_says_so() {
    let mut app = app();
    assert!(!app.toggle_stage(no_ops()));
    assert_eq!(app.status_message.as_deref(), Some("staging unavailable (no git backend)"));
}

#[test]
fn a_git_failure_lands_in_the_footer_and_keeps_the_selection() {
    let mut ops = RecordingOps::new();
    ops.fail = true;
    let mut app = app();
    app.view.cursor = 4;
    app.mode = Mode::Visual { anchor: 3 };
    assert!(!app.toggle_stage(Some(&ops)));
    assert_eq!(app.status_message.as_deref(), Some("could not read git output: index locked"));
    assert_eq!(app.mode, Mode::Visual { anchor: 3 });
}

#[test]
fn space_outside_the_diff_pane_does_nothing() {
    let ops = RecordingOps::new();
    let mut app = app();
    app.mode = Mode::Compose;
    assert!(!app.toggle_stage(Some(&ops)));
    assert!(ops.log().is_empty());
    assert_eq!(app.status_message, None);
}

#[test]
fn the_resolved_gesture_follows_the_row_under_the_cursor() {
    let mut app = app();
    app.view.cursor = 0;
    assert_eq!(app.stage_gesture_at_cursor(false), Some(Ok(StageGesture::WholeFile)));
    app.view.cursor = 2;
    assert_eq!(app.stage_gesture_at_cursor(false), Some(Ok(StageGesture::Hunk(0))));
    assert_eq!(app.stage_gesture_at_cursor(true), Some(Ok(StageGesture::WholeFile)));
}

#[test]
fn the_staging_panel_opens_from_normal_after_a_refresh_and_closes_again() {
    let ops = RecordingOps::new();
    let mut app = app();
    app.staging_cursor = 5;
    app.motion_count = Some(3);
    app.toggle_staging_panel(Some(&ops));
    assert_eq!(app.mode, Mode::Staging);
    assert_eq!(ops.log(), vec!["status".to_string()]);
    assert_eq!(app.staging_cursor, 0);
    assert_eq!(app.motion_count, None);
    app.toggle_staging_panel(Some(&ops));
    assert_eq!(app.mode, Mode::Normal);
}

#[test]
fn the_staging_panel_toggle_is_ignored_while_composing() {
    let ops = RecordingOps::new();
    let mut app = app();
    app.mode = Mode::Compose;
    app.toggle_staging_panel(Some(&ops));
    assert_eq!(app.mode, Mode::Compose);
    assert!(ops.log().is_empty());
}
