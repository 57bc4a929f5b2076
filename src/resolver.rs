//! Folds the raw CI and review data of one branch into a single status label.

use vstd::prelude::*;
use crate::events::NotificationEvent;
use crate::github::{CheckRun, CommitState, CommitStatus, PullRequest, Review, ReviewState, WorkflowRunConclusion};

verus! {

/// The folded CI conclusion of a commit.
#[derive(Debug, Clone, Copy, PartialEq, Eq, Structural)]
pub enum CiSignal {
    Success,
    Failure,
    Pending,
}

/// The folded outcome of a pull request's reviews.
#[derive(Debug, Clone, Copy, PartialEq, Eq, Structural)]
pub enum ReviewSignal {
    Approved,
    ChangesRequested,
    NewComment,
    Silent,
}

/// What is known of the pull request whose source is a branch.
#[derive(Debug, Clone, Copy, PartialEq, Eq, Structural)]
pub enum PrSignal {
    /// The branch has no pull request.
    NoPr,
    /// The pull request is merged.
    Merged,
    /// The pull request is open, with its folded reviews.
    Open(ReviewSignal),
    /// A fetch that the pull request's status depends on failed this cycle.
    Unavailable,
}

/// The single canonical status of a branch in one poll.
#[derive(Debug, Clone, Copy, PartialEq, Eq, Structural)]
pub enum StatusLabel {
    CiFailed,
    CiGreen,
    PrMerged,
    PrApproved,
    PrChangesRequested,
    PrNewComment,
    NoStatus,
}

/// A check-run conclusion that fails the pipeline.
pub open spec fn is_failing(c: Option<WorkflowRunConclusion>) -> bool {
    c == Some(WorkflowRunConclusion::Failure) || c == Some(WorkflowRunConclusion::TimedOut)
        || c == Some(WorkflowRunConclusion::Cancelled)
}

/// CI signal of a non-empty set of check runs.
pub open spec fn check_runs_signal(runs: Seq<CheckRun>) -> CiSignal {
    if exists|i: int| 0 <= i < runs.len() && is_failing(#[trigger] runs[i].conclusion) {
        CiSignal::Failure
    } else if forall|i: int|
        0 <= i < runs.len() ==> #[trigger] runs[i].conclusion == Some(WorkflowRunConclusion::Success) {
        CiSignal::Success
    } else {
        CiSignal::Pending
    }
}

/// CI signal of the legacy statuses: the first entry decides.
pub open spec fn legacy_signal(statuses: Seq<CommitStatus>) -> CiSignal {
    if statuses.len() == 0 {
        CiSignal::Pending
    } else {
        match statuses[0].state {
            CommitState::Failure | CommitState::Error => CiSignal::Failure,
            CommitState::Success => CiSignal::Success,
            CommitState::Pending => CiSignal::Pending,
        }
    }
}

/// CI signal of a commit: check runs where there are any, else the legacy statuses.
pub open spec fn ci_signal(runs: Seq<CheckRun>, statuses: Seq<CommitStatus>) -> CiSignal {
    if runs.len() > 0 {
        check_runs_signal(runs)
    } else {
        legacy_signal(statuses)
    }
}

pub open spec fn has_review(reviews: Seq<Review>, state: ReviewState) -> bool {
    exists|i: int| 0 <= i < reviews.len() && #[trigger] reviews[i].state == state
}

/// Folded reviews: an approval wins over everything, a change request over
/// comments; a comment counts only where no decisive review exists.
pub open spec fn review_signal(reviews: Seq<Review>) -> ReviewSignal {
    if has_review(reviews, ReviewState::Approved) {
        ReviewSignal::Approved
    } else if has_review(reviews, ReviewState::ChangesRequested) {
        ReviewSignal::ChangesRequested
    } else if has_review(reviews, ReviewState::Commented) {
        ReviewSignal::NewComment
    } else {
        ReviewSignal::Silent
    }
}

/// The label that the CI signal alone gives.
pub open spec fn ci_label(ci: Option<CiSignal>) -> Option<StatusLabel> {
    match ci {
        Some(CiSignal::Failure) => Some(StatusLabel::CiFailed),
        Some(CiSignal::Success) => Some(StatusLabel::CiGreen),
        Some(CiSignal::Pending) => Some(StatusLabel::NoStatus),
        None => None,
    }
}

/// The status label of a branch; `None` where a signal that decides it could
/// not be fetched. A failing pipeline pre-empts every pull-request status.
pub open spec fn status_label(ci: Option<CiSignal>, pr: PrSignal) -> Option<StatusLabel> {
    if ci == Some(CiSignal::Failure) {
        Some(StatusLabel::CiFailed)
    } else {
        match pr {
            PrSignal::Unavailable => None,
            PrSignal::Merged => Some(StatusLabel::PrMerged),
            PrSignal::Open(ReviewSignal::Approved) => Some(StatusLabel::PrApproved),
            PrSignal::Open(ReviewSignal::ChangesRequested) => Some(StatusLabel::PrChangesRequested),
            PrSignal::Open(ReviewSignal::NewComment) => Some(StatusLabel::PrNewComment),
            PrSignal::Open(ReviewSignal::Silent) | PrSignal::NoPr => ci_label(ci),
        }
    }
}

/// The pull-request signal from a fetched pull request and its fetched reviews.
pub open spec fn pr_signal(pr: Option<PullRequest>, reviews: Option<Seq<Review>>) -> PrSignal {
    match pr {
        None => PrSignal::NoPr,
        Some(p) => if p.merged == Some(true) {
            PrSignal::Merged
        } else {
            match reviews {
                Some(rs) => PrSignal::Open(review_signal(rs)),
                None => PrSignal::Unavailable,
            }
        },
    }
}

/// The contents of a fetched list, `None` where the fetch failed.
pub open spec fn fetched<T>(v: Option<Vec<T>>) -> Option<Seq<T>> {
    match v {
        Some(v) => Some(v@),
        None => None,
    }
}

/// The event that announces a label, if any.
pub open spec fn label_event(label: StatusLabel) -> Option<NotificationEvent> {
    match label {
        StatusLabel::CiFailed => Some(NotificationEvent::CiFailure),
        StatusLabel::CiGreen => Some(NotificationEvent::CiSuccess),
        StatusLabel::PrMerged => Some(NotificationEvent::PrMerged),
        StatusLabel::PrApproved => Some(NotificationEvent::PrApproved),
        StatusLabel::PrChangesRequested => Some(NotificationEvent::PrChangesRequested),
        StatusLabel::PrNewComment => Some(NotificationEvent::PrNewComment),
        StatusLabel::NoStatus => None,
    }
}

/// A label that stems from the pull request rather than from CI.
pub open spec fn is_pr_level(label: StatusLabel) -> bool {
    label == StatusLabel::PrMerged || label == StatusLabel::PrApproved
        || label == StatusLabel::PrChangesRequested || label == StatusLabel::PrNewComment
}

fn conclusion_fails(c: Option<WorkflowRunConclusion>) -> (r: bool)
    ensures
        r == is_failing(c),
{
    match c {
        Some(WorkflowRunConclusion::Failure) | Some(WorkflowRunConclusion::TimedOut) | Some(
            WorkflowRunConclusion::Cancelled,
        ) => true,
        _ => false,
    }
}

/// Folds the check runs of a commit, falling back to its legacy statuses
/// where it has no check run.
pub fn resolve_ci(check_runs: &Vec<CheckRun>, statuses: &Vec<CommitStatus>) -> (r: CiSignal)
    ensures
        r == ci_signal(check_runs@, statuses@),
{
    if check_runs.len() > 0 {
        let mut all_success = true;
        let mut i: usize = 0;
        while i < check_runs.len()
            invariant
                0 <= i <= check_runs.len(),
                forall|j: int| 0 <= j < i ==> !is_failing(#[trigger] check_runs@[j].conclusion),
                all_success == (forall|j: int|
                    0 <= j < i ==> #[trigger] check_runs@[j].conclusion == Some(
                        WorkflowRunConclusion::Success,
                    )),
            decreases check_runs.len() - i,
        {
            let c = check_runs[i].conclusion;
            if conclusion_fails(c) {
                return CiSignal::Failure;
            }
            if !matches!(c, Some(WorkflowRunConclusion::Success)) {
                all_success = false;
            }
            i = i + 1;
        }
        if all_success {
            CiSignal::Success
        } else {
            CiSignal::Pending
        }
    } else if statuses.len() == 0 {
        CiSignal::Pending
    } else {
        match statuses[0].state {
            CommitState::Failure | CommitState::Error => CiSignal::Failure,
            CommitState::Success => CiSignal::Success,
            CommitState::Pending => CiSignal::Pending,
        }
    }
}

/// Scans the reviews (oldest first, as listed) newest-first. The first
/// approval found stops the scan; a change request or a comment is noted and
/// the scan goes on.
pub fn fold_reviews(reviews: &Vec<Review>) -> (r: ReviewSignal)
    ensures
        r == review_signal(reviews@),
{
    let mut changes_requested = false;
    let mut commented = false;
    let mut k: usize = reviews.len();
    while k > 0
        invariant
            k <= reviews.len(),
            forall|j: int| k <= j < reviews.len() ==> #[trigger] reviews@[j].state != ReviewState::Approved,
            changes_requested == (exists|j: int|
                k <= j < reviews.len() && #[trigger] reviews@[j].state == ReviewState::ChangesRequested),
            commented == (exists|j: int|
                k <= j < reviews.len() && #[trigger] reviews@[j].state == ReviewState::Commented),
        decreases k,
    {
        k = k - 1;
        match reviews[k].state {
            ReviewState::Approved => {
                return ReviewSignal::Approved;
            },
            ReviewState::ChangesRequested => {
                changes_requested = true;
            },
            ReviewState::Commented => {
                commented = true;
            },
            _ => {},
        }
    }
    if changes_requested {
        ReviewSignal::ChangesRequested
    } else if commented {
        ReviewSignal::NewComment
    } else {
        ReviewSignal::Silent
    }
}

/// The status label from the folded signals; `None` where it cannot be
/// decided this cycle.
pub fn resolve_label(ci: Option<CiSignal>, pr: PrSignal) -> (r: Option<StatusLabel>)
    ensures
        r == status_label(ci, pr),
{
    if matches!(ci, Some(CiSignal::Failure)) {
        return Some(StatusLabel::CiFailed);
    }
    match pr {
        PrSignal::Unavailable => None,
        PrSignal::Merged => Some(StatusLabel::PrMerged),
        PrSignal::Open(ReviewSignal::Approved) => Some(StatusLabel::PrApproved),
        PrSignal::Open(ReviewSignal::ChangesRequested) => Some(StatusLabel::PrChangesRequested),
        PrSignal::Open(ReviewSignal::NewComment) => Some(StatusLabel::PrNewComment),
        PrSignal::Open(ReviewSignal::Silent) | PrSignal::NoPr => match ci {
            Some(CiSignal::Failure) => Some(StatusLabel::CiFailed),
            Some(CiSignal::Success) => Some(StatusLabel::CiGreen),
            Some(CiSignal::Pending) => Some(StatusLabel::NoStatus),
            None => None,
        },
    }
}

/// The pull-request signal of a branch from what was fetched: `pr` is the
/// pull request found for the branch, if any; `reviews` its reviews, `None`
/// where they could not be fetched.
pub fn resolve_pr(pr: &Option<PullRequest>, reviews: &Option<Vec<Review>>) -> (r: PrSignal)
    ensures
        r == pr_signal(*pr, fetched(*reviews)),
{
    match pr {
        None => PrSignal::NoPr,
        Some(p) => {
            if matches!(p.merged, Some(true)) {
                PrSignal::Merged
            } else {
                match reviews {
                    Some(rs) => PrSignal::Open(fold_reviews(rs)),
                    None => PrSignal::Unavailable,
                }
            }
        },
    }
}

/// The event that announces a label, if any.
pub fn event_for_label(label: StatusLabel) -> (r: Option<NotificationEvent>)
    ensures
        r == label_event(label),
{
    match label {
        StatusLabel::CiFailed => Some(NotificationEvent::CiFailure),
        StatusLabel::CiGreen => Some(NotificationEvent::CiSuccess),
        StatusLabel::PrMerged => Some(NotificationEvent::PrMerged),
        StatusLabel::PrApproved => Some(NotificationEvent::PrApproved),
        StatusLabel::PrChangesRequested => Some(NotificationEvent::PrChangesRequested),
        StatusLabel::PrNewComment => Some(NotificationEvent::PrNewComment),
        StatusLabel::NoStatus => None,
    }
}

/// CI signal from what was fetched: `None` where the check runs could not be
/// fetched, or where there were none and the legacy statuses could not be.
pub open spec fn fetched_ci_signal(runs: Option<Seq<CheckRun>>, statuses: Option<Seq<CommitStatus>>) -> Option<
    CiSignal,
> {
    match runs {
        None => None,
        Some(rs) => if rs.len() > 0 {
            Some(check_runs_signal(rs))
        } else {
            match statuses {
                Some(st) => Some(legacy_signal(st)),
                None => None,
            }
        },
    }
}

/// The status label of a branch from its fetched CI data and pull-request
/// signal; `None` where it cannot be decided this cycle.
pub fn resolve_status(
    check_runs: &Option<Vec<CheckRun>>,
    statuses: &Option<Vec<CommitStatus>>,
    pr: PrSignal,
) -> (r: Option<StatusLabel>)
    ensures
        r == status_label(fetched_ci_signal(fetched(*check_runs), fetched(*statuses)), pr),
{
    let ci = match check_runs {
        None => None,
        Some(runs) => {
            if runs.len() > 0 {
                Some(resolve_ci(runs, &Vec::new()))
            } else {
                match statuses {
                    Some(st) => Some(resolve_ci(runs, st)),
                    None => None,
                }
            }
        },
    };
    resolve_label(ci, pr)
}

/// The label depends on the conclusions of the check runs, the states of the
/// legacy statuses and of the reviews, and whether the pull request is merged,
/// and on nothing else: equal such data resolve to the same label.
pub proof fn lemma_resolution_is_function(
    runs1: Seq<CheckRun>,
    statuses1: Seq<CommitStatus>,
    pr1: Option<PullRequest>,
    reviews1: Option<Seq<Review>>,
    runs2: Seq<CheckRun>,
    statuses2: Seq<CommitStatus>,
    pr2: Option<PullRequest>,
    reviews2: Option<Seq<Review>>,
)
    requires
        runs1.len() == runs2.len(),
        forall|i: int| 0 <= i < runs1.len() ==> #[trigger] runs1[i].conclusion == runs2[i].conclusion,
        statuses1.len() == statuses2.len(),
        forall|i: int| 0 <= i < statuses1.len() ==> #[trigger] statuses1[i].state == statuses2[i].state,
        pr1 is Some <==> pr2 is Some,
        pr1 matches Some(p1) ==> pr2 matches Some(p2) && p1.merged == p2.merged,
        reviews1 is Some <==> reviews2 is Some,
        reviews1 matches Some(rs1) ==> reviews2 matches Some(rs2) && rs1.len() == rs2.len() && forall|i: int|
            0 <= i < rs1.len() ==> #[trigger] rs1[i].state == rs2[i].state,
    ensures
        status_label(Some(ci_signal(runs1, statuses1)), pr_signal(pr1, reviews1)) == status_label(
            Some(ci_signal(runs2, statuses2)),
            pr_signal(pr2, reviews2),
        ),
{
    assert(check_runs_signal(runs1) == check_runs_signal(runs2)) by {
        if exists|i: int| 0 <= i < runs1.len() && is_failing(#[trigger] runs1[i].conclusion) {
            let i = choose|i: int| 0 <= i < runs1.len() && is_failing(#[trigger] runs1[i].conclusion);
            assert(is_failing(runs2[i].conclusion));
        }
        if exists|i: int| 0 <= i < runs2.len() && is_failing(#[trigger] runs2[i].conclusion) {
            let i = choose|i: int| 0 <= i < runs2.len() && is_failing(#[trigger] runs2[i].conclusion);
            assert(is_failing(runs1[i].conclusion));
        }
        let ok1 = forall|i: int|
            0 <= i < runs1.len() ==> #[trigger] runs1[i].conclusion == Some(WorkflowRunConclusion::Success);
        let ok2 = forall|i: int|
            0 <= i < runs2.len() ==> #[trigger] runs2[i].conclusion == Some(WorkflowRunConclusion::Success);
        if ok1 {
            assert forall|i: int| 0 <= i < runs2.len() implies #[trigger] runs2[i].conclusion == Some(
                WorkflowRunConclusion::Success,
            ) by {
                assert(runs1[i].conclusion == runs2[i].conclusion);
            }
        }
        if ok2 {
            assert forall|i: int| 0 <= i < runs1.len() implies #[trigger] runs1[i].conclusion == Some(
                WorkflowRunConclusion::Success,
            ) by {
                assert(runs1[i].conclusion == runs2[i].conclusion);
            }
        }
    }
    if reviews1 is Some {
        let rs1 = reviews1->0;
        let rs2 = reviews2->0;
        assert forall|s: ReviewState| has_review(rs1, s) == has_review(rs2, s) by {
            if has_review(rs1, s) {
                let i = choose|i: int| 0 <= i < rs1.len() && #[trigger] rs1[i].state == s;
                assert(rs2[i].state == s);
            }
            if has_review(rs2, s) {
                let i = choose|i: int| 0 <= i < rs2.len() && #[trigger] rs2[i].state == s;
                assert(rs1[i].state == s);
            }
        }
        assert(review_signal(rs1) == review_signal(rs2));
    }
}

/// One failing check run makes the branch CI-failed, whatever the other runs,
/// the legacy statuses and the pull request say.
pub proof fn lemma_failing_run_fails(runs: Seq<CheckRun>, statuses: Seq<CommitStatus>, pr: PrSignal, k: int)
    requires
        0 <= k < runs.len(),
        is_failing(runs[k].conclusion),
    ensures
        ci_signal(runs, statuses) == CiSignal::Failure,
        status_label(Some(ci_signal(runs, statuses)), pr) == Some(StatusLabel::CiFailed),
{
}

} // verus!
