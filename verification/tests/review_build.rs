use std::cell::RefCell;

use redquill::diff::{DiffLine, DiffParseError, FileChangeKind, FileDiff, Hunk, LineOrigin};
use redquill::git::{ChangeKind, DiffTarget, FileStatus, GitError, RawFilePatch, StatusCode};
use redquill::review_build::{build_review, compose_review, path_less, sort_entries, staged_read, worktree_reads};
use redquill::stage_ops::{ReviewError, StageOps, StagedState};

fn status(kind: ChangeKind, staged: StatusCode, unstaged: StatusCode, path: &str) -> FileStatus {
    FileStatus { kind, staged, unstaged, path: path.to_string(), orig_path: None }
}

/// A `StageOps` fake: `diff` is target-aware (separate working-tree and
/// staged patch lists), `status` is fixed, worktree reads come from a
/// table, and every `diff` call is counted.
#[derive(Default)]
struct Fake {
    working_tree_diff: Vec<RawFilePatch>,
    staged_diff: Vec<RawFilePatch>,
    status: Vec<FileStatus>,
    files: Vec<(String, Vec<u8>)>,
    staged_fails: bool,
    diff_calls: RefCell<Vec<String>>,
}

impl StageOps for Fake {
    fn diff(&self, target: &DiffTarget) -> Result<Vec<RawFilePatch>, GitError> {
        match target {
            DiffTarget::Staged => {
                self.diff_calls.borrow_mut().push("staged".to_string());
                if self.staged_fails {
                    return Err(GitError::Parse("staged diff failed".to_string()));
                }
                Ok(self.staged_diff.clone())
            }
            _ => {
                self.diff_calls.borrow_mut().push("other".to_string());
                Ok(self.working_tree_diff.clone())
            }
        }
    }

    fn status(&self) -> Result<Vec<FileStatus>, GitError> {
        Ok(self.status.clone())
    }

    fn stage_file(&self, _path: &str) -> Result<(), GitError> {
        Ok(())
    }

    fn unstage_file(&self, _path: &str) -> Result<(), GitError> {
        Ok(())
    }

    fn read_worktree_file(&self, path: &str) -> Option<Vec<u8>> {
        self.files.iter().find(|(p, _)| p == path).map(|(_, b)| b.clone())
    }
}

/// A single-hunk raw patch for `path`.
fn one_hunk_patch(path: &str) -> RawFilePatch {
    RawFilePatch {
        path: path.to_string(),
        old_path: None,
        raw: format!(
            "diff --git a/{path} b/{path}\nindex 1..2 100644\n--- a/{path}\n+++ b/{path}\n@@ -1,1 +1,1 @@\n-old\n+new\n"
        ),
        is_binary: false,
    }
}

fn line(origin: LineOrigin, content: &str, old: Option<u32>, new: Option<u32>) -> DiffLine {
    DiffLine { origin, content: content.to_string(), old_line: old, new_line: new, no_newline: false }
}

/// A small patch parser for the tests: one hunk per `@@ -a,b +c,d @@`
/// header, its `-`/`+`/` ` lines as the body; a header that does not read
/// as four numbers is an error.
fn parse_patch(p: &RawFilePatch) -> Result<FileDiff, DiffParseError> {
    let mut hunks: Vec<Hunk> = Vec::new();
    for text in p.raw.lines() {
        if let Some(rest) = text.strip_prefix("@@ -") {
            let ranges = rest.split(" @@").next().unwrap_or("");
            let nums: Vec<u32> = ranges
                .split(|c| c == ',' || c == ' ' || c == '+')
                .filter(|s| !s.is_empty())
                .filter_map(|s| s.parse().ok())
                .collect();
            if nums.len() != 4 {
                return Err(DiffParseError::BadHunkHeader(text.to_string()));
            }
            hunks.push(Hunk {
                old_start: nums[0],
                old_count: nums[1],
                new_start: nums[2],
                new_count: nums[3],
                section: None,
                lines: Vec::new(),
            });
        } else if let Some(h) = hunks.last_mut() {
            if let Some(c) = text.strip_prefix('+') {
                h.lines.push(line(LineOrigin::Added, c, None, Some(1)));
            } else if let Some(c) = text.strip_prefix('-') {
                h.lines.push(line(LineOrigin::Removed, c, Some(1), None));
            } else if let Some(c) = text.strip_prefix(' ') {
                h.lines.push(line(LineOrigin::Context, c, Some(1), Some(1)));
            }
        }
    }
    Ok(FileDiff {
        path: p.path.clone(),
        old_path: p.old_path.clone(),
        kind: FileChangeKind::Modified,
        is_binary: p.is_binary,
        hunks,
    })
}

/// An untracked file's all-added entry: one hunk with every line added.
fn synth_added(path: String, content: String) -> FileDiff {
    let lines: Vec<DiffLine> = content
        .lines()
        .enumerate()
        .map(|(i, l)| line(LineOrigin::Added, l, None, Some(i as u32 + 1)))
        .collect();
    let n = lines.len() as u32;
    FileDiff {
        path,
        old_path: None,
        kind: FileChangeKind::Added,
        is_binary: false,
        hunks: vec![Hunk { old_start: 0, old_count: 0, new_start: 1, new_count: n, section: None, lines }],
    }
}

fn build(fake: &Fake, target: &DiffTarget) -> Result<redquill::stage_ops::ReviewSnapshot, ReviewError> {
    build_review(fake, target, &parse_patch, &synth_added)
}

fn paths(files: &[FileDiff]) -> Vec<&str> {
    files.iter().map(|f| f.path.as_str()).collect()
}

#[test]
fn fully_staged_file_gets_hunks_from_the_staged_diff() {
    let fake = Fake {
        staged_diff: vec![one_hunk_patch("x.rs")],
        status: vec![status(ChangeKind::Ordinary, StatusCode::Modified, StatusCode::Unmodified, "x.rs")],
        ..Fake::default()
    };

    let review = build(&fake, &DiffTarget::WorkingTree).unwrap();

    let idx = review
        .files
        .iter()
        .position(|f| f.path == "x.rs")
        .expect("x.rs must still appear as a section");
    assert!(
        !review.files[idx].hunks.is_empty(),
        "expanding a fully-staged file must show its staged hunks, not an empty section"
    );
    assert!(
        review.patches[idx].is_some(),
        "a fully-staged file with a real staged patch must carry it, enabling hunk/line addressing"
    );
}

#[test]
fn fully_staged_file_without_a_staged_patch_falls_back_to_a_header_only_placeholder() {
    let fake = Fake {
        status: vec![status(ChangeKind::Ordinary, StatusCode::Deleted, StatusCode::Unmodified, "deleted.rs")],
        ..Fake::default()
    };

    let review = build(&fake, &DiffTarget::WorkingTree).unwrap();

    let idx = review
        .files
        .iter()
        .position(|f| f.path == "deleted.rs")
        .expect("deleted.rs must still appear as a section");
    assert!(review.files[idx].hunks.is_empty());
    assert!(review.patches[idx].is_none());
}

#[test]
fn staged_target_does_not_fetch_the_staged_diff_again() {
    let fake = Fake {
        staged_diff: vec![one_hunk_patch("y.rs")],
        status: vec![status(ChangeKind::Ordinary, StatusCode::Modified, StatusCode::Unmodified, "y.rs")],
        ..Fake::default()
    };

    let review = build(&fake, &DiffTarget::Staged).unwrap();

    let count = review.files.iter().filter(|f| f.path == "y.rs").count();
    assert_eq!(count, 1);
}

#[test]
fn a_staged_review_issues_exactly_one_diff_call() {
    let fake = Fake {
        staged_diff: vec![one_hunk_patch("y.rs")],
        status: vec![status(ChangeKind::Ordinary, StatusCode::Modified, StatusCode::Unmodified, "y.rs")],
        ..Fake::default()
    };
    build(&fake, &DiffTarget::Staged).unwrap();
    assert_eq!(*fake.diff_calls.borrow(), vec!["staged".to_string()]);
}

#[test]
fn a_fully_staged_file_already_in_the_diff_is_not_added_twice() {
    let fake = Fake {
        working_tree_diff: vec![one_hunk_patch("x.rs")],
        staged_diff: vec![one_hunk_patch("x.rs")],
        status: vec![status(ChangeKind::Ordinary, StatusCode::Modified, StatusCode::Unmodified, "x.rs")],
        ..Fake::default()
    };
    let review = build(&fake, &DiffTarget::WorkingTree).unwrap();
    assert_eq!(paths(&review.files), vec!["x.rs"]);
}

#[test]
fn untracked_files_become_all_added_entries_and_binary_ones_placeholders() {
    let fake = Fake {
        status: vec![
            status(ChangeKind::Untracked, StatusCode::Unmodified, StatusCode::Untracked, "notes.txt"),
            status(ChangeKind::Untracked, StatusCode::Unmodified, StatusCode::Untracked, "logo.png"),
            status(ChangeKind::Untracked, StatusCode::Unmodified, StatusCode::Untracked, "gone.txt"),
        ],
        files: vec![
            ("notes.txt".to_string(), b"one\ntwo\n".to_vec()),
            ("logo.png".to_string(), vec![0xff, 0xfe, 0x00]),
        ],
        ..Fake::default()
    };
    let review = build(&fake, &DiffTarget::WorkingTree).unwrap();
    // Sorted by path; the unreadable file is skipped.
    assert_eq!(paths(&review.files), vec!["logo.png", "notes.txt"]);
    let png = &review.files[0];
    assert!(png.is_binary);
    assert_eq!(png.kind, FileChangeKind::Added);
    assert!(png.hunks.is_empty());
    let notes = &review.files[1];
    assert_eq!(notes.kind, FileChangeKind::Added);
    assert_eq!(notes.hunks[0].lines.len(), 2);
    assert_eq!(notes.hunks[0].lines[1].content, "two");
    assert!(review.patches.iter().all(|p| p.is_none()));
}

#[test]
fn entries_from_every_source_are_sorted_by_path_together() {
    let fake = Fake {
        working_tree_diff: vec![one_hunk_patch("src/z.rs"), one_hunk_patch("README.md")],
        staged_diff: vec![one_hunk_patch("src/b.rs")],
        status: vec![
            status(ChangeKind::Ordinary, StatusCode::Modified, StatusCode::Unmodified, "src/b.rs"),
            status(ChangeKind::Untracked, StatusCode::Unmodified, StatusCode::Untracked, "a.txt"),
        ],
        files: vec![("a.txt".to_string(), b"hi\n".to_vec())],
        ..Fake::default()
    };
    let review = build(&fake, &DiffTarget::WorkingTree).unwrap();
    assert_eq!(paths(&review.files), vec!["README.md", "a.txt", "src/b.rs", "src/z.rs"]);
    assert_eq!(review.files.len(), review.patches.len());
    assert_eq!(review.patches[0].as_ref().unwrap().path, "README.md");
    assert!(review.patches[1].is_none());
    assert_eq!(review.patches[2].as_ref().unwrap().path, "src/b.rs");
    assert_eq!(review.staged.len(), 1);
    assert_eq!(review.staged_states.get("src/b.rs"), Some(StagedState::Full));
}

#[test]
fn a_failed_staged_diff_fails_a_working_tree_review() {
    let fake = Fake {
        staged_fails: true,
        status: vec![status(ChangeKind::Ordinary, StatusCode::Modified, StatusCode::Unmodified, "x.rs")],
        ..Fake::default()
    };
    match build(&fake, &DiffTarget::WorkingTree) {
        Err(ReviewError::Git(GitError::Parse(m))) => assert_eq!(m, "staged diff failed"),
        other => panic!("unexpected: {other:?}"),
    }
}

#[test]
fn a_patch_that_does_not_parse_fails_the_review() {
    let mut bad = one_hunk_patch("bad.rs");
    bad.raw = "@@ -x +y @@\n".to_string();
    let fake = Fake { working_tree_diff: vec![bad], ..Fake::default() };
    match build(&fake, &DiffTarget::WorkingTree) {
        Err(ReviewError::Parse(DiffParseError::BadHunkHeader(h))) => assert_eq!(h, "@@ -x +y @@"),
        other => panic!("unexpected: {other:?}"),
    }
    // The staged diff is never fetched once the target's diff failed.
    assert_eq!(*fake.diff_calls.borrow(), vec!["other".to_string()]);
}

#[test]
fn compose_review_of_a_range_keeps_only_the_diff() {
    let raw = vec![one_hunk_patch("b.rs"), one_hunk_patch("a.rs")];
    let st = vec![status(ChangeKind::Untracked, StatusCode::Unmodified, StatusCode::Untracked, "new.rs")];
    let review = compose_review(
        false,
        &raw,
        &st,
        Ok(vec![one_hunk_patch("c.rs")]),
        &vec![Some(b"x\n".to_vec())],
        &parse_patch,
        &synth_added,
    )
    .unwrap();
    assert_eq!(paths(&review.files), vec!["a.rs", "b.rs"]);
    assert_eq!(review.files[0].hunks[0].lines.len(), 2);
}

#[test]
fn compose_review_uses_the_last_staged_patch_for_a_path() {
    let mut second = one_hunk_patch("x.rs");
    second.raw.push_str("@@ -5,1 +5,1 @@\n-a\n+b\n");
    let st = vec![status(ChangeKind::Ordinary, StatusCode::Modified, StatusCode::Unmodified, "x.rs")];
    let review = compose_review(
        true,
        &Vec::new(),
        &st,
        Ok(vec![one_hunk_patch("x.rs"), second]),
        &vec![None],
        &parse_patch,
        &synth_added,
    )
    .unwrap();
    assert_eq!(review.files[0].hunks.len(), 2);
}

#[test]
fn path_less_orders_by_characters_with_prefixes_first() {
    assert!(path_less("a", "b"));
    assert!(path_less("a", "ab"));
    assert!(!path_less("ab", "a"));
    assert!(!path_less("a", "a"));
    assert!(path_less("Z", "a"));
    assert!(path_less("src/a.rs", "src/b.rs"));
    assert!(path_less("é", "ê"));
}

#[test]
fn sort_entries_is_stable_for_equal_paths() {
    let mut first = one_hunk_patch("same.rs");
    first.raw = "first".to_string();
    let mut second = one_hunk_patch("same.rs");
    second.raw = "second".to_string();
    let entry = |p: &RawFilePatch| (parse_patch(p).unwrap(), Some(p.clone()));
    let sorted = sort_entries(vec![entry(&first), entry(&one_hunk_patch("a.rs")), entry(&second)]);
    let raws: Vec<&str> = sorted.iter().map(|e| e.1.as_ref().unwrap().raw.as_str()).collect();
    assert_eq!(raws[1], "first");
    assert_eq!(raws[2], "second");
    assert_eq!(sorted[0].0.path, "a.rs");
}

#[test]
fn only_untracked_entries_are_read_from_the_worktree() {
    let st = vec![
        status(ChangeKind::Ordinary, StatusCode::Modified, StatusCode::Unmodified, "a.rs"),
        status(ChangeKind::Untracked, StatusCode::Unmodified, StatusCode::Untracked, "new.txt"),
    ];
    assert_eq!(worktree_reads(&st), vec![None, Some("new.txt".to_string())]);
}

#[test]
fn only_a_working_tree_review_reads_the_staged_diff() {
    assert_eq!(staged_read(&DiffTarget::WorkingTree), Some(DiffTarget::Staged));
    assert_eq!(staged_read(&DiffTarget::Staged), None);
    assert_eq!(staged_read(&DiffTarget::Range("a..b".to_string())), None);
}

/// A backend whose status read fails.
struct FailingStatus;

impl StageOps for FailingStatus {
    fn diff(&self, _target: &DiffTarget) -> Result<Vec<RawFilePatch>, GitError> {
        Ok(Vec::new())
    }
    fn status(&self) -> Result<Vec<FileStatus>, GitError> {
        Err(GitError::Parse("status broke".to_string()))
    }
    fn stage_file(&self, _path: &str) -> Result<(), GitError> {
        Ok(())
    }
    fn unstage_file(&self, _path: &str) -> Result<(), GitError> {
        Ok(())
    }
}

#[test]
fn a_failed_status_read_is_the_reviews_error_unchanged() {
    match build_review(&FailingStatus, &DiffTarget::WorkingTree, &parse_patch, &synth_added) {
        Err(ReviewError::Git(GitError::Parse(m))) => assert_eq!(m, "status broke"),
        other => panic!("unexpected: {other:?}"),
    }
}
