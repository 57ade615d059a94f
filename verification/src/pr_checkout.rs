//! The pull-request checkout sequence as a state machine: which git step
//! runs next given the request and the previous step's result, and how the
//! checkout ends. A first checkout force-fetches the head into the managed
//! branch and adds the worktree; a reopen peeks the remote head first and
//! reuses the worktree when the head has not moved, or recreates it when
//! the author pushed. A failed fetch destroys nothing, and offers a prior
//! worktree as a stale fallback where one survives.
use vstd::prelude::*;

use crate::git::{GitError, git_error_text};
use crate::stage_ops::{PrCheckoutOutcome, PrCheckoutRequest};
use crate::text::{is_whitespace, is_ws, lines_of, lines_spec, string_of};

verus! {

/// `s` without leading whitespace.
pub open spec fn trim_start(s: Seq<char>) -> Seq<char>
    decreases s.len(),
{
    if s.len() > 0 && is_ws(s[0]) {
        trim_start(s.drop_first())
    } else {
        s
    }
}

/// `s` without trailing whitespace.
pub open spec fn trim_end(s: Seq<char>) -> Seq<char>
    decreases s.len(),
{
    if s.len() > 0 && is_ws(s.last()) {
        trim_end(s.drop_last())
    } else {
        s
    }
}

/// `s` without leading or trailing whitespace.
pub open spec fn trim(s: Seq<char>) -> Seq<char> {
    trim_end(trim_start(s))
}

/// The first line of `ls` from index `i` on that is not blank, trimmed.
pub open spec fn first_nonblank(ls: Seq<Seq<char>>, i: int) -> Option<Seq<char>>
    decreases ls.len() - i,
{
    if i < 0 || i >= ls.len() {
        None
    } else if trim(ls[i]).len() > 0 {
        Some(trim(ls[i]))
    } else {
        first_nonblank(ls, i + 1)
    }
}

/// The one-line diagnostic a git error contributes to a failed checkout: a
/// command error's first non-blank stderr line, trimmed, when its stderr is
/// not blank; the error's display text otherwise.
pub open spec fn git_headline_spec(e: GitError) -> Seq<char> {
    match e {
        GitError::Command { stderr, .. } => if trim(stderr@).len() > 0 {
            match first_nonblank(lines_spec(stderr@), 0) {
                Some(l) => l,
                None => trim(stderr@),
            }
        } else {
            git_error_text(e)
        },
        _ => git_error_text(e),
    }
}

/// `cs` without leading or trailing whitespace.
fn trimmed(cs: &Vec<char>) -> (out: Vec<char>)
    ensures
        out@ == trim(cs@),
{
    let mut a: usize = 0;
    assert(cs@.subrange(0, cs@.len() as int) =~= cs@);
    while a < cs.len() && is_whitespace(cs[a])
        invariant
            a <= cs@.len(),
            trim_start(cs@.subrange(a as int, cs@.len() as int)) == trim_start(cs@),
        decreases cs.len() - a,
    {
        assert(cs@.subrange(a as int, cs@.len() as int).drop_first() =~= cs@.subrange(
            a + 1,
            cs@.len() as int,
        ));
        a = a + 1;
    }
    let ghost ts = cs@.subrange(a as int, cs@.len() as int);
    assert(trim_start(ts) == ts);
    let mut b: usize = cs.len();
    while b > a && is_whitespace(cs[b - 1])
        invariant
            a <= b <= cs@.len(),
            trim_end(cs@.subrange(a as int, b as int)) == trim_end(ts),
        decreases b - a,
    {
        assert(cs@.subrange(a as int, b as int).drop_last() =~= cs@.subrange(a as int, b - 1));
        b = b - 1;
    }
    let mut out: Vec<char> = Vec::new();
    let mut k = a;
    while k < b
        invariant
            a <= k <= b <= cs@.len(),
            out@ == cs@.subrange(a as int, k as int),
        decreases b - k,
    {
        out.push(cs[k]);
        k = k + 1;
    }
    out
}

/// The one-line diagnostic of a git error (see [`git_headline_spec`]).
pub fn git_error_headline(e: &GitError) -> (s: String)
    ensures
        s@ == git_headline_spec(*e),
{
    match e {
        GitError::Command { stderr, .. } => {
            let cs = crate::text::chars_of(stderr.as_str());
            let whole = trimmed(&cs);
            if whole.len() == 0 {
                return e.message();
            }
            assert(whole@ == trim(stderr@));
            assert(git_headline_spec(*e) == match first_nonblank(lines_spec(stderr@), 0) {
                Some(l) => l,
                None => trim(stderr@),
            });
            let ls = lines_of(stderr.as_str());
            let mut i: usize = 0;
            while i < ls.len()
                invariant
                    i <= ls@.len(),
                    ls@.len() == lines_spec(stderr@).len(),
                    forall|j: int| 0 <= j < ls@.len() ==> #[trigger] ls@[j]@ == lines_spec(stderr@)[j],
                    first_nonblank(lines_spec(stderr@), i as int) == first_nonblank(
                        lines_spec(stderr@),
                        0,
                    ),
                    git_headline_spec(*e) == match first_nonblank(lines_spec(stderr@), 0) {
                        Some(l) => l,
                        None => trim(stderr@),
                    },
                decreases ls.len() - i,
            {
                let t = trimmed(&ls[i]);
                if t.len() > 0 {
                    assert(first_nonblank(lines_spec(stderr@), i as int) == Some(t@));
                    return string_of(t.as_slice());
                }
                i = i + 1;
            }
            string_of(whole.as_slice())
        },
        _ => e.message(),
    }
}

/// One git step of a checkout, run by the caller.
#[derive(Debug, Clone, Copy, PartialEq, Eq, Structural)]
pub enum CheckoutStep {
    /// Force-fetch the PR head into the managed branch.
    FetchPrHead,
    /// Plain-fetch the PR's base branch (best effort).
    FetchBaseRef,
    /// Read the managed branch's head commit.
    ReadHeadSha,
    /// Add (or reuse) the managed worktree.
    AddWorktree,
    /// Peek the remote head without updating the managed branch.
    PeekPrHead,
    /// Remove the managed worktree.
    RemoveWorktree,
    /// Prune stale worktree records (best effort).
    PruneWorktrees,
}

/// Where a checkout stands: the step it waits on, with what it carries
/// forward.
#[derive(Debug, Clone, PartialEq, Eq)]
pub enum CheckoutPhase {
    /// First checkout: fetching the head.
    FetchingHead,
    /// First checkout: fetching the base.
    FetchingBase,
    /// First checkout: reading the fetched head.
    ReadingSha,
    /// First checkout: adding the worktree for `head_sha`.
    AddingWorktree { head_sha: String },
    /// Reopen: peeking the remote head.
    Peeking,
    /// Reopen, head unmoved: fetching the base.
    FetchingBaseUnmoved { remote: String },
    /// Reopen, head moved: removing the worktree.
    Removing { remote: String },
    /// Reopen, head moved: pruning worktree records.
    Pruning { remote: String },
    /// Reopen, head moved: fetching the head.
    Refetching { remote: String },
    /// Reopen, head moved: fetching the base.
    RefetchingBase { remote: String },
    /// Reopen, head moved: adding the worktree again.
    ReAdding { remote: String },
}

/// What the step a checkout waited on gave back.
#[derive(Debug, PartialEq, Eq)]
pub enum CheckoutEvent {
    /// The head fetch's result.
    Fetched(Result<(), GitError>),
    /// The base fetch ran (its result does not matter).
    BaseFetched,
    /// The managed branch's head, if it could be read.
    HeadSha(Option<String>),
    /// The worktree add's result: the worktree's path.
    WorktreeAdded(Result<String, GitError>),
    /// The peek's result: the remote head.
    Peeked(Result<String, GitError>),
    /// The worktree removal's result.
    Removed(Result<(), GitError>),
    /// The prune ran (its result does not matter).
    Pruned,
}

/// What happens next: another step, or the checkout's outcome.
#[derive(Debug, Clone, PartialEq, Eq)]
pub enum CheckoutNext {
    /// Run `step`, then hand its result back in `phase`.
    Run(CheckoutPhase, CheckoutStep),
    /// The checkout is over.
    Done(PrCheckoutOutcome),
}

/// The step a phase waits on.
pub open spec fn step_of(p: CheckoutPhase) -> CheckoutStep {
    match p {
        CheckoutPhase::FetchingHead => CheckoutStep::FetchPrHead,
        CheckoutPhase::FetchingBase => CheckoutStep::FetchBaseRef,
        CheckoutPhase::ReadingSha => CheckoutStep::ReadHeadSha,
        CheckoutPhase::AddingWorktree { .. } => CheckoutStep::AddWorktree,
        CheckoutPhase::Peeking => CheckoutStep::PeekPrHead,
        CheckoutPhase::FetchingBaseUnmoved { .. } => CheckoutStep::FetchBaseRef,
        CheckoutPhase::Removing { .. } => CheckoutStep::RemoveWorktree,
        CheckoutPhase::Pruning { .. } => CheckoutStep::PruneWorktrees,
        CheckoutPhase::Refetching { .. } => CheckoutStep::FetchPrHead,
        CheckoutPhase::RefetchingBase { .. } => CheckoutStep::FetchBaseRef,
        CheckoutPhase::ReAdding { .. } => CheckoutStep::AddWorktree,
    }
}

/// Whether `e` is a result of `step`.
pub open spec fn answers(step: CheckoutStep, e: CheckoutEvent) -> bool {
    match step {
        CheckoutStep::FetchPrHead => e is Fetched,
        CheckoutStep::FetchBaseRef => e is BaseFetched,
        CheckoutStep::ReadHeadSha => e is HeadSha,
        CheckoutStep::AddWorktree => e is WorktreeAdded,
        CheckoutStep::PeekPrHead => e is Peeked,
        CheckoutStep::RemoveWorktree => e is Removed,
        CheckoutStep::PruneWorktrees => e is Pruned,
    }
}

/// How many steps a phase can still take at most.
pub open spec fn rank(p: CheckoutPhase) -> nat {
    match p {
        CheckoutPhase::FetchingHead => 4,
        CheckoutPhase::FetchingBase => 3,
        CheckoutPhase::ReadingSha => 2,
        CheckoutPhase::AddingWorktree { .. } => 1,
        CheckoutPhase::Peeking => 6,
        CheckoutPhase::FetchingBaseUnmoved { .. } => 1,
        CheckoutPhase::Removing { .. } => 5,
        CheckoutPhase::Pruning { .. } => 4,
        CheckoutPhase::Refetching { .. } => 3,
        CheckoutPhase::RefetchingBase { .. } => 2,
        CheckoutPhase::ReAdding { .. } => 1,
    }
}

/// The view of an optional string.
pub open spec fn opt_text(o: Option<String>) -> Option<Seq<char>> {
    match o {
        Some(s) => Some(s@),
        None => None,
    }
}

/// An outcome as plain values.
pub enum OutcomeV {
    Ready { head_sha: Seq<char>, moved: bool, worktree_path: Seq<char> },
    Failed { message: Seq<char>, stale_worktree: Option<Seq<char>> },
}

/// The view of an outcome.
pub open spec fn outcome_view(o: PrCheckoutOutcome) -> OutcomeV {
    match o {
        PrCheckoutOutcome::Ready { head_sha, moved, worktree_path } => OutcomeV::Ready {
            head_sha: head_sha@,
            moved,
            worktree_path: worktree_path@,
        },
        PrCheckoutOutcome::Failed { message, stale_worktree } => OutcomeV::Failed {
            message: message@,
            stale_worktree: opt_text(stale_worktree),
        },
    }
}

/// A phase as plain values.
pub enum PhaseV {
    FetchingHead,
    FetchingBase,
    ReadingSha,
    AddingWorktree { head_sha: Seq<char> },
    Peeking,
    FetchingBaseUnmoved { remote: Seq<char> },
    Removing { remote: Seq<char> },
    Pruning { remote: Seq<char> },
    Refetching { remote: Seq<char> },
    RefetchingBase { remote: Seq<char> },
    ReAdding { remote: Seq<char> },
}

/// The view of a phase.
pub open spec fn phase_view(p: CheckoutPhase) -> PhaseV {
    match p {
        CheckoutPhase::FetchingHead => PhaseV::FetchingHead,
        CheckoutPhase::FetchingBase => PhaseV::FetchingBase,
        CheckoutPhase::ReadingSha => PhaseV::ReadingSha,
        CheckoutPhase::AddingWorktree { head_sha } => PhaseV::AddingWorktree { head_sha: head_sha@ },
        CheckoutPhase::Peeking => PhaseV::Peeking,
        CheckoutPhase::FetchingBaseUnmoved { remote } => PhaseV::FetchingBaseUnmoved { remote: remote@ },
        CheckoutPhase::Removing { remote } => PhaseV::Removing { remote: remote@ },
        CheckoutPhase::Pruning { remote } => PhaseV::Pruning { remote: remote@ },
        CheckoutPhase::Refetching { remote } => PhaseV::Refetching { remote: remote@ },
        CheckoutPhase::RefetchingBase { remote } => PhaseV::RefetchingBase { remote: remote@ },
        CheckoutPhase::ReAdding { remote } => PhaseV::ReAdding { remote: remote@ },
    }
}

/// The step a phase waits on, as plain values.
pub open spec fn step_v(p: PhaseV) -> CheckoutStep {
    match p {
        PhaseV::FetchingHead => CheckoutStep::FetchPrHead,
        PhaseV::FetchingBase => CheckoutStep::FetchBaseRef,
        PhaseV::ReadingSha => CheckoutStep::ReadHeadSha,
        PhaseV::AddingWorktree { .. } => CheckoutStep::AddWorktree,
        PhaseV::Peeking => CheckoutStep::PeekPrHead,
        PhaseV::FetchingBaseUnmoved { .. } => CheckoutStep::FetchBaseRef,
        PhaseV::Removing { .. } => CheckoutStep::RemoveWorktree,
        PhaseV::Pruning { .. } => CheckoutStep::PruneWorktrees,
        PhaseV::Refetching { .. } => CheckoutStep::FetchPrHead,
        PhaseV::RefetchingBase { .. } => CheckoutStep::FetchBaseRef,
        PhaseV::ReAdding { .. } => CheckoutStep::AddWorktree,
    }
}

/// How many steps a phase can still take at most, as plain values.
pub open spec fn rank_v(p: PhaseV) -> nat {
    match p {
        PhaseV::FetchingHead => 4,
        PhaseV::FetchingBase => 3,
        PhaseV::ReadingSha => 2,
        PhaseV::AddingWorktree { .. } => 1,
        PhaseV::Peeking => 6,
        PhaseV::FetchingBaseUnmoved { .. } => 1,
        PhaseV::Removing { .. } => 5,
        PhaseV::Pruning { .. } => 4,
        PhaseV::Refetching { .. } => 3,
        PhaseV::RefetchingBase { .. } => 2,
        PhaseV::ReAdding { .. } => 1,
    }
}

/// The next move as plain values.
pub enum NextV {
    Run(PhaseV),
    Done(OutcomeV),
}

/// The view of a next move.
pub open spec fn next_view(n: CheckoutNext) -> NextV {
    match n {
        CheckoutNext::Run(p, _) => NextV::Run(phase_view(p)),
        CheckoutNext::Done(o) => NextV::Done(outcome_view(o)),
    }
}

/// A failed outcome with `message` and no stale worktree.
pub open spec fn failed(message: Seq<char>, stale: Option<Seq<char>>) -> NextV {
    NextV::Done(OutcomeV::Failed { message, stale_worktree: stale })
}

/// Where a checkout goes from `phase` once its step gave back `event`.
pub open spec fn next_spec(req: PrCheckoutRequest, phase: CheckoutPhase, event: CheckoutEvent) -> NextV {
    match (phase, event) {
        (CheckoutPhase::FetchingHead, CheckoutEvent::Fetched(Err(e))) => failed(git_headline_spec(e), None),
        (CheckoutPhase::FetchingHead, CheckoutEvent::Fetched(Ok(_))) => NextV::Run(PhaseV::FetchingBase),
        (CheckoutPhase::FetchingBase, _) => NextV::Run(PhaseV::ReadingSha),
        (CheckoutPhase::ReadingSha, CheckoutEvent::HeadSha(o)) => NextV::Run(
            PhaseV::AddingWorktree {
                head_sha: match o {
                    Some(s) => s@,
                    None => seq![],
                },
            },
        ),
        (CheckoutPhase::AddingWorktree { head_sha }, CheckoutEvent::WorktreeAdded(Ok(p))) => NextV::Done(
            OutcomeV::Ready { head_sha: head_sha@, moved: false, worktree_path: p@ },
        ),
        (CheckoutPhase::AddingWorktree { .. }, CheckoutEvent::WorktreeAdded(Err(e))) => failed(
            git_headline_spec(e),
            None,
        ),
        (CheckoutPhase::Peeking, CheckoutEvent::Peeked(Err(e))) => failed(
            git_headline_spec(e),
            Some(req.worktree_path@),
        ),
        (CheckoutPhase::Peeking, CheckoutEvent::Peeked(Ok(remote))) => if opt_text(req.stored_head_sha)
            == Some(remote@) {
            NextV::Run(PhaseV::FetchingBaseUnmoved { remote: remote@ })
        } else {
            NextV::Run(PhaseV::Removing { remote: remote@ })
        },
        (CheckoutPhase::FetchingBaseUnmoved { remote }, _) => NextV::Done(
            OutcomeV::Ready { head_sha: remote@, moved: false, worktree_path: req.worktree_path@ },
        ),
        (CheckoutPhase::Removing { .. }, CheckoutEvent::Removed(Err(e))) => failed(
            git_headline_spec(e),
            Some(req.worktree_path@),
        ),
        (CheckoutPhase::Removing { remote }, CheckoutEvent::Removed(Ok(_))) => NextV::Run(PhaseV::Pruning { remote: remote@ }),
        (CheckoutPhase::Pruning { remote }, _) => NextV::Run(PhaseV::Refetching { remote: remote@ }),
        (CheckoutPhase::Refetching { .. }, CheckoutEvent::Fetched(Err(e))) => failed(
            git_headline_spec(e),
            None,
        ),
        (CheckoutPhase::Refetching { remote }, CheckoutEvent::Fetched(Ok(_))) => NextV::Run(PhaseV::RefetchingBase { remote: remote@ }),
        (CheckoutPhase::RefetchingBase { remote }, _) => NextV::Run(PhaseV::ReAdding { remote: remote@ }),
        (CheckoutPhase::ReAdding { remote }, CheckoutEvent::WorktreeAdded(Ok(p))) => NextV::Done(
            OutcomeV::Ready { head_sha: remote@, moved: true, worktree_path: p@ },
        ),
        (CheckoutPhase::ReAdding { .. }, CheckoutEvent::WorktreeAdded(Err(e))) => failed(
            git_headline_spec(e),
            None,
        ),
        _ => NextV::Done(OutcomeV::Failed { message: seq![], stale_worktree: None }),
    }
}

/// How a checkout starts: a reopen of an existing worktree peeks the remote
/// head first; a first checkout fetches the head.
pub fn checkout_start(req: &PrCheckoutRequest) -> (n: CheckoutNext)
    ensures
        n matches CheckoutNext::Run(p, s) && s == step_of(p) && (if req.worktree_exists {
            p == CheckoutPhase::Peeking
        } else {
            p == CheckoutPhase::FetchingHead
        }),
{
    if req.worktree_exists {
        CheckoutNext::Run(CheckoutPhase::Peeking, CheckoutStep::PeekPrHead)
    } else {
        CheckoutNext::Run(CheckoutPhase::FetchingHead, CheckoutStep::FetchPrHead)
    }
}

fn run(p: CheckoutPhase, s: CheckoutStep) -> (n: CheckoutNext)
    requires
        s == step_of(p),
    ensures
        n == CheckoutNext::Run(p, s),
{
    CheckoutNext::Run(p, s)
}

fn fail(e: &GitError, stale: Option<String>) -> (n: CheckoutNext)
    ensures
        next_view(n) == failed(git_headline_spec(*e), opt_text(stale)),
{
    CheckoutNext::Done(PrCheckoutOutcome::Failed { message: git_error_headline(e), stale_worktree: stale })
}

/// Where a checkout goes from `phase` once its step gave back `event` (see
/// [`next_spec`]); every step it asks for is the one its new phase waits
/// on.
pub fn checkout_next(req: &PrCheckoutRequest, phase: CheckoutPhase, event: CheckoutEvent) -> (n:
    CheckoutNext)
    requires
        answers(step_of(phase), event),
    ensures
        next_view(n) == next_spec(*req, phase, event),
        n matches CheckoutNext::Run(p, s) ==> s == step_of(p),
{
    match phase {
        CheckoutPhase::FetchingHead => match event {
            CheckoutEvent::Fetched(Err(e)) => fail(&e, None),
            _ => run(CheckoutPhase::FetchingBase, CheckoutStep::FetchBaseRef),
        },
        CheckoutPhase::FetchingBase => run(CheckoutPhase::ReadingSha, CheckoutStep::ReadHeadSha),
        CheckoutPhase::ReadingSha => {
            let head_sha = match event {
                CheckoutEvent::HeadSha(Some(s)) => s,
                _ => String::new(),
            };
            run(CheckoutPhase::AddingWorktree { head_sha }, CheckoutStep::AddWorktree)
        },
        CheckoutPhase::AddingWorktree { head_sha } => match event {
            CheckoutEvent::WorktreeAdded(Ok(p)) => CheckoutNext::Done(
                PrCheckoutOutcome::Ready { head_sha, moved: false, worktree_path: p },
            ),
            CheckoutEvent::WorktreeAdded(Err(e)) => fail(&e, None),
            _ => CheckoutNext::Done(
                PrCheckoutOutcome::Failed { message: String::new(), stale_worktree: None },
            ),
        },
        CheckoutPhase::Peeking => match event {
            CheckoutEvent::Peeked(Err(e)) => fail(&e, Some(req.worktree_path.clone())),
            CheckoutEvent::Peeked(Ok(remote)) => {
                let unmoved = match &req.stored_head_sha {
                    Some(s) => *s == remote,
                    None => false,
                };
                if unmoved {
                    run(CheckoutPhase::FetchingBaseUnmoved { remote }, CheckoutStep::FetchBaseRef)
                } else {
                    run(CheckoutPhase::Removing { remote }, CheckoutStep::RemoveWorktree)
                }
            },
            _ => CheckoutNext::Done(
                PrCheckoutOutcome::Failed { message: String::new(), stale_worktree: None },
            ),
        },
        CheckoutPhase::FetchingBaseUnmoved { remote } => CheckoutNext::Done(
            PrCheckoutOutcome::Ready {
                head_sha: remote,
                moved: false,
                worktree_path: req.worktree_path.clone(),
            },
        ),
        CheckoutPhase::Removing { remote } => match event {
            CheckoutEvent::Removed(Err(e)) => fail(&e, Some(req.worktree_path.clone())),
            _ => run(CheckoutPhase::Pruning { remote }, CheckoutStep::PruneWorktrees),
        },
        CheckoutPhase::Pruning { remote } => run(
            CheckoutPhase::Refetching { remote },
            CheckoutStep::FetchPrHead,
        ),
        CheckoutPhase::Refetching { remote } => match event {
            CheckoutEvent::Fetched(Err(e)) => fail(&e, None),
            _ => run(CheckoutPhase::RefetchingBase { remote }, CheckoutStep::FetchBaseRef),
        },
        CheckoutPhase::RefetchingBase { remote } => run(
            CheckoutPhase::ReAdding { remote },
            CheckoutStep::AddWorktree,
        ),
        CheckoutPhase::ReAdding { remote } => match event {
            CheckoutEvent::WorktreeAdded(Ok(p)) => CheckoutNext::Done(
                PrCheckoutOutcome::Ready { head_sha: remote, moved: true, worktree_path: p },
            ),
            CheckoutEvent::WorktreeAdded(Err(e)) => fail(&e, None),
            _ => CheckoutNext::Done(
                PrCheckoutOutcome::Failed { message: String::new(), stale_worktree: None },
            ),
        },
    }
}

/// Every step brings a checkout closer to its end: a phase that follows
/// another has a lower rank, so a checkout finishes within seven steps.
pub proof fn lemma_checkout_terminates(req: PrCheckoutRequest, phase: CheckoutPhase, event: CheckoutEvent)
    requires
        answers(step_of(phase), event),
    ensures
        next_spec(req, phase, event) matches NextV::Run(v) ==> rank_v(v) < rank(phase),
{
}

/// A checkout never removes the worktree unless a reopen found the remote
/// head moved away from the stored one; a failure that leaves a prior
/// worktree behind offers exactly the request's worktree as stale, and only
/// on a reopen.
pub proof fn lemma_checkout_destroys_nothing_on_failure(
    req: PrCheckoutRequest,
    phase: CheckoutPhase,
    event: CheckoutEvent,
)
    requires
        answers(step_of(phase), event),
    ensures
        next_spec(req, phase, event) matches NextV::Run(v) && step_v(v) == CheckoutStep::RemoveWorktree
            ==> phase == CheckoutPhase::Peeking && (event matches CheckoutEvent::Peeked(Ok(r))
            && opt_text(req.stored_head_sha) != Some(r@)),
        next_spec(req, phase, event) matches NextV::Done(OutcomeV::Failed { stale_worktree: Some(p), .. })
            ==> p == req.worktree_path@ && (phase == CheckoutPhase::Peeking || phase is Removing),
{
}

} // verus!
