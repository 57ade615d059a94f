use std::cell::RefCell;
use std::ops::Range;

use redquill::annotate::Side;
use redquill::git::{DiffTarget, FileStatus, GitError};
use redquill::highlight_cache::{HighlightCache, MAX_CACHED_LINES};
use redquill::stage_ops::StageOps;
use redquill::syntax::{content_source, fetch_content, show, source_for, worktree};

type LineSpans = Vec<(Range<usize>, u8)>;

/// `n` highlighted lines.
fn lines(n: usize) -> Vec<LineSpans> {
    vec![vec![(0..3, 1)]; n]
}

/// Populates `cache` for `path`'s `side` under `target`, counting how many
/// times the content had to be highlighted.
fn populate(
    cache: &mut HighlightCache<LineSpans>,
    calls: &RefCell<usize>,
    target: &DiffTarget,
    path: &str,
    side: Side,
    n: usize,
) {
    let source = content_source(target, side, path, None);
    cache.populate(&source, || {
        *calls.borrow_mut() += 1;
        lines(n)
    });
}

#[test]
fn populate_cache_only_fetches_once_per_source() {
    let calls = RefCell::new(0);
    let mut cache = HighlightCache::new();
    let target = DiffTarget::Staged;
    for _ in 0..3 {
        populate(&mut cache, &calls, &target, "a.rs", Side::New, 1);
    }
    assert_eq!(*calls.borrow(), 1);
    assert_eq!(cache.len(), 1);
    assert!(!cache.get(&content_source(&target, Side::New, "a.rs", None)).is_empty());
}

#[test]
fn one_blob_is_highlighted_once_however_many_targets_reach_it() {
    let calls = RefCell::new(0);
    let mut cache = HighlightCache::new();
    let commit = DiffTarget::Commit("abc123".to_string());
    let range = DiffTarget::Range("main..abc123".to_string());
    populate(&mut cache, &calls, &commit, "a.rs", Side::New, 1);
    populate(&mut cache, &calls, &range, "a.rs", Side::New, 1);
    assert_eq!(*calls.borrow(), 1);
    assert_eq!(cache.len(), 1);
}

#[test]
fn invalidate_path_drops_every_side_but_keeps_other_files() {
    let calls = RefCell::new(0);
    let mut cache = HighlightCache::new();
    let target = DiffTarget::Staged;
    for (path, side) in [("a.rs", Side::New), ("a.rs", Side::Old), ("b.rs", Side::New)] {
        populate(&mut cache, &calls, &target, path, side, 1);
    }
    assert_eq!(cache.len(), 3);

    cache.invalidate_path("a.rs");
    assert!(!cache.has_path("a.rs"));
    assert!(cache.has_path("b.rs"));
    assert_eq!(cache.len(), 1);
    assert_eq!(cache.cached_lines(), 1);
}

#[test]
fn cache_evicts_least_recently_used_once_over_the_line_ceiling() {
    let calls = RefCell::new(0);
    let mut cache = HighlightCache::new();
    let target = DiffTarget::Staged;
    let big = MAX_CACHED_LINES * 2 / 5;

    populate(&mut cache, &calls, &target, "a.rs", Side::New, big);
    populate(&mut cache, &calls, &target, "b.rs", Side::New, big);
    // Re-touch a.rs so b.rs is now the least recently used.
    populate(&mut cache, &calls, &target, "a.rs", Side::New, big);
    populate(&mut cache, &calls, &target, "c.rs", Side::New, big);

    assert!(cache.cached_lines() <= MAX_CACHED_LINES);
    assert!(cache.has_path("c.rs"), "the newest entry must survive");
    assert!(cache.has_path("a.rs"), "the re-touched entry must survive");
    assert!(!cache.has_path("b.rs"), "the stalest entry is evicted");
}

#[test]
fn get_gives_back_what_insert_cached_and_nothing_for_a_miss() {
    let mut cache: HighlightCache<LineSpans> = HighlightCache::new();
    cache.insert(worktree("a.rs"), lines(3));
    assert_eq!(cache.get(&worktree("a.rs")).len(), 3);
    assert!(cache.get(&worktree("b.rs")).is_empty());
    assert!(cache.get(&show("HEAD", "a.rs")).is_empty());
}

#[test]
fn reinserting_a_source_replaces_its_spans_and_recounts_lines() {
    let mut cache: HighlightCache<LineSpans> = HighlightCache::new();
    cache.insert(worktree("a.rs"), lines(3));
    cache.insert(worktree("a.rs"), lines(5));
    assert_eq!(cache.len(), 1);
    assert_eq!(cache.cached_lines(), 5);
}

#[test]
fn a_single_oversized_entry_stays_cached() {
    let mut cache: HighlightCache<LineSpans> = HighlightCache::new();
    cache.insert(worktree("a.rs"), lines(10));
    cache.insert(worktree("huge.rs"), lines(MAX_CACHED_LINES + 1));
    assert!(cache.has_path("huge.rs"));
    assert!(!cache.has_path("a.rs"));
    assert_eq!(cache.len(), 1);
}

#[test]
fn touch_reports_hits_and_misses() {
    let mut cache: HighlightCache<LineSpans> = HighlightCache::new();
    assert!(!cache.touch(&worktree("a.rs")));
    cache.insert(worktree("a.rs"), lines(1));
    assert!(cache.touch(&worktree("a.rs")));
}

#[test]
fn retain_paths_keeps_only_the_listed_files() {
    let mut cache: HighlightCache<LineSpans> = HighlightCache::new();
    cache.insert(worktree("a.rs"), lines(1));
    cache.insert(show("HEAD", "b.rs"), lines(2));
    cache.insert(show(":0", "c.rs"), lines(4));
    cache.retain_paths(&vec!["b.rs".to_string(), "c.rs".to_string()]);
    assert!(!cache.has_path("a.rs"));
    assert!(cache.has_path("b.rs"));
    assert!(cache.has_path("c.rs"));
    assert_eq!(cache.cached_lines(), 6);
}

#[test]
fn clear_drops_everything() {
    let mut cache: HighlightCache<LineSpans> = HighlightCache::new();
    cache.insert(worktree("a.rs"), lines(1));
    cache.clear();
    assert_eq!(cache.len(), 0);
    assert_eq!(cache.cached_lines(), 0);
}

/// A backend whose worktree holds one line of code and whose `git show`
/// must never be asked.
struct WorktreeOps;

impl StageOps for WorktreeOps {
    fn status(&self) -> Result<Vec<FileStatus>, GitError> {
        Ok(Vec::new())
    }
    fn stage_file(&self, _p: &str) -> Result<(), GitError> {
        Ok(())
    }
    fn unstage_file(&self, _p: &str) -> Result<(), GitError> {
        Ok(())
    }
    fn read_worktree_file(&self, _path: &str) -> Option<Vec<u8>> {
        Some(b"let x = 1;\n".to_vec())
    }
    fn show_file(&self, _spec: &str) -> Option<String> {
        panic!("synthetic new-side content must not call show_file");
    }
}

#[test]
fn synthetic_new_side_reads_worktree_not_show() {
    let mut cache: HighlightCache<LineSpans> = HighlightCache::new();
    let ops = WorktreeOps;
    let source = source_for(&DiffTarget::WorkingTree, Side::New, "new.rs", None, true)
        .expect("a synthetic file's new side always has a source");
    cache.populate(&source, || match fetch_content(&ops, &source) {
        Some(content) => content.lines().map(|l| vec![(0..l.len(), 1u8)]).collect(),
        None => Vec::new(),
    });
    assert!(!cache.get(&source).is_empty());
}
