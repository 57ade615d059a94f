# redquill

A terminal user interface for reading and staging git diffs and for
branch and pull-request review sessions. This crate holds its logic: the
row model of a diff, search, staging gestures, review-session bookkeeping,
the branch/worktree switcher, the launcher and the pull-request checkout
flow, each with its behaviour stated as Verus contracts and proved.

## Layout

- `src/` — the verified library. Each module states what its functions
  return over spec functions and views, and keeps its laws as public proof
  functions (for example `lemma_sort_by_path`, `lemma_review_in_path_order`,
  `lemma_checkout_terminates`, `lemma_launcher_session_returns_where_opened`,
  `lemma_annotations_only_add_rows`).
  Git is reached through the `StageOps` trait, which a backend implements;
  the library states what holds whatever the backend answers, and the steps
  that take the backend's answers (`compose_review`, `finish_…` functions,
  `checkout_next`) have exact contracts.
- `tests/` — tests of the library on concrete values.
- `app/` — the terminal side: entering and restoring the terminal, drawing
  with ratatui what the library computes, running the pull-request checkout
  steps and listings in the background.
