use reposouls::events::NotificationEvent;
use reposouls::github::{
    CheckRun, CommitState, CommitStatus, PullRequest, Review, ReviewState, WorkflowRunConclusion,
    WorkflowRunStatus,
};
use reposouls::resolver::{
    event_for_label, fold_reviews, resolve_ci, resolve_label, resolve_pr, resolve_status,
    CiSignal, PrSignal, ReviewSignal, StatusLabel,
};

fn run(id: i64, conclusion: Option<WorkflowRunConclusion>) -> CheckRun {
    let status = if conclusion.is_some() {
        WorkflowRunStatus::Completed
    } else {
        WorkflowRunStatus::InProgress
    };
    CheckRun { id, status, conclusion }
}

fn status(state: CommitState) -> CommitStatus {
    CommitStatus { state }
}

fn review(id: i64, state: ReviewState, submitted_at: i64) -> Review {
    Review { id, state, submitted_at }
}

fn pull_request(merged: Option<bool>) -> PullRequest {
    PullRequest {
        id: 7,
        number: 42,
        title: "Add feature".to_string(),
        merged,
        merged_at: if merged == Some(true) { Some(1_700_000_500) } else { None },
        created_at: 1_700_000_000,
        updated_at: 1_700_000_600,
    }
}

#[test]
fn one_failing_run_among_successes_is_ci_failed() {
    let runs = vec![
        run(1, Some(WorkflowRunConclusion::Success)),
        run(2, Some(WorkflowRunConclusion::Failure)),
        run(3, Some(WorkflowRunConclusion::Success)),
    ];
    assert_eq!(resolve_ci(&runs, &vec![]), CiSignal::Failure);
    let label = resolve_status(&Some(runs), &Some(vec![]), PrSignal::NoPr);
    assert_eq!(label, Some(StatusLabel::CiFailed));
    assert_ne!(label, Some(StatusLabel::CiGreen));
}

#[test]
fn failing_run_preempts_approved_and_merged_pr() {
    let runs = vec![
        run(1, Some(WorkflowRunConclusion::Success)),
        run(2, Some(WorkflowRunConclusion::Failure)),
    ];
    let approved = resolve_status(&Some(runs.clone()), &None, PrSignal::Open(ReviewSignal::Approved));
    assert_eq!(approved, Some(StatusLabel::CiFailed));
    let merged = resolve_status(&Some(runs), &None, PrSignal::Merged);
    assert_eq!(merged, Some(StatusLabel::CiFailed));
}

#[test]
fn timed_out_and_cancelled_runs_fail() {
    let timed_out = vec![run(1, Some(WorkflowRunConclusion::TimedOut))];
    assert_eq!(resolve_ci(&timed_out, &vec![]), CiSignal::Failure);
    let cancelled = vec![
        run(1, Some(WorkflowRunConclusion::Success)),
        run(2, Some(WorkflowRunConclusion::Cancelled)),
    ];
    assert_eq!(resolve_ci(&cancelled, &vec![]), CiSignal::Failure);
}

#[test]
fn all_successful_runs_are_green() {
    let runs = vec![
        run(1, Some(WorkflowRunConclusion::Success)),
        run(2, Some(WorkflowRunConclusion::Success)),
    ];
    assert_eq!(resolve_ci(&runs, &vec![status(CommitState::Failure)]), CiSignal::Success);
    assert_eq!(
        resolve_status(&Some(runs), &None, PrSignal::NoPr),
        Some(StatusLabel::CiGreen)
    );
}

#[test]
fn unfinished_or_neutral_run_is_pending() {
    let unfinished = vec![run(1, Some(WorkflowRunConclusion::Success)), run(2, None)];
    assert_eq!(resolve_ci(&unfinished, &vec![]), CiSignal::Pending);
    let neutral = vec![run(1, Some(WorkflowRunConclusion::Neutral))];
    assert_eq!(resolve_ci(&neutral, &vec![]), CiSignal::Pending);
    assert_eq!(
        resolve_status(&Some(neutral), &None, PrSignal::NoPr),
        Some(StatusLabel::NoStatus)
    );
}

#[test]
fn legacy_statuses_first_entry_decides() {
    let none: Vec<CheckRun> = vec![];
    let error_first = vec![status(CommitState::Error), status(CommitState::Success)];
    assert_eq!(resolve_ci(&none, &error_first), CiSignal::Failure);
    let failure_first = vec![status(CommitState::Failure)];
    assert_eq!(resolve_ci(&none, &failure_first), CiSignal::Failure);
    let success_first = vec![status(CommitState::Success), status(CommitState::Failure)];
    assert_eq!(resolve_ci(&none, &success_first), CiSignal::Success);
    let pending_first = vec![status(CommitState::Pending), status(CommitState::Success)];
    assert_eq!(resolve_ci(&none, &pending_first), CiSignal::Pending);
    assert_eq!(resolve_ci(&none, &vec![]), CiSignal::Pending);
}

#[test]
fn ci_signal_unknown_when_fetches_fail() {
    assert_eq!(resolve_status(&None, &Some(vec![]), PrSignal::NoPr), None);
    assert_eq!(resolve_status(&Some(vec![]), &None, PrSignal::NoPr), None);
    let green = vec![run(1, Some(WorkflowRunConclusion::Success))];
    assert_eq!(
        resolve_status(&Some(green), &None, PrSignal::NoPr),
        Some(StatusLabel::CiGreen)
    );
    assert_eq!(
        resolve_status(&Some(vec![]), &Some(vec![status(CommitState::Success)]), PrSignal::NoPr),
        Some(StatusLabel::CiGreen)
    );
}

#[test]
fn comment_then_changes_then_approval_is_approved() {
    let reviews = vec![
        review(1, ReviewState::Commented, 100),
        review(2, ReviewState::ChangesRequested, 200),
        review(3, ReviewState::Approved, 300),
    ];
    assert_eq!(fold_reviews(&reviews), ReviewSignal::Approved);
    let pr = resolve_pr(&Some(pull_request(Some(false))), &Some(reviews));
    assert_eq!(pr, PrSignal::Open(ReviewSignal::Approved));
    assert_eq!(resolve_label(Some(CiSignal::Pending), pr), Some(StatusLabel::PrApproved));
}

#[test]
fn later_comment_does_not_override_changes_requested() {
    let reviews = vec![
        review(1, ReviewState::ChangesRequested, 100),
        review(2, ReviewState::Commented, 200),
    ];
    assert_eq!(fold_reviews(&reviews), ReviewSignal::ChangesRequested);
    let pr = resolve_pr(&Some(pull_request(None)), &Some(reviews));
    assert_eq!(
        resolve_label(Some(CiSignal::Success), pr),
        Some(StatusLabel::PrChangesRequested)
    );
}

#[test]
fn lone_comment_is_new_comment() {
    let reviews = vec![review(1, ReviewState::Commented, 100)];
    let pr = resolve_pr(&Some(pull_request(Some(false))), &Some(reviews));
    assert_eq!(pr, PrSignal::Open(ReviewSignal::NewComment));
    let runs = vec![run(1, None)];
    assert_eq!(
        resolve_status(&Some(runs), &None, pr),
        Some(StatusLabel::PrNewComment)
    );
}

#[test]
fn older_approval_wins_over_newer_change_request() {
    let reviews = vec![
        review(1, ReviewState::Approved, 100),
        review(2, ReviewState::ChangesRequested, 200),
    ];
    assert_eq!(fold_reviews(&reviews), ReviewSignal::Approved);
}

#[test]
fn dismissed_and_pending_reviews_fall_through_to_ci() {
    let reviews = vec![
        review(1, ReviewState::Dismissed, 100),
        review(2, ReviewState::Pending, 200),
    ];
    assert_eq!(fold_reviews(&reviews), ReviewSignal::Silent);
    assert_eq!(fold_reviews(&vec![]), ReviewSignal::Silent);
    let pr = resolve_pr(&Some(pull_request(Some(false))), &Some(reviews));
    assert_eq!(resolve_label(Some(CiSignal::Success), pr), Some(StatusLabel::CiGreen));
    assert_eq!(resolve_label(Some(CiSignal::Pending), pr), Some(StatusLabel::NoStatus));
}

#[test]
fn merged_pr_is_merged_whatever_its_reviews() {
    let reviews = vec![review(1, ReviewState::ChangesRequested, 100)];
    let pr = resolve_pr(&Some(pull_request(Some(true))), &Some(reviews));
    assert_eq!(pr, PrSignal::Merged);
    assert_eq!(resolve_pr(&Some(pull_request(Some(true))), &None), PrSignal::Merged);
    assert_eq!(resolve_label(Some(CiSignal::Pending), pr), Some(StatusLabel::PrMerged));
}

#[test]
fn missing_pr_and_unavailable_reviews() {
    assert_eq!(resolve_pr(&None, &None), PrSignal::NoPr);
    assert_eq!(resolve_label(Some(CiSignal::Failure), PrSignal::NoPr), Some(StatusLabel::CiFailed));
    let pr = resolve_pr(&Some(pull_request(Some(false))), &None);
    assert_eq!(pr, PrSignal::Unavailable);
    assert_eq!(resolve_label(Some(CiSignal::Success), pr), None);
    assert_eq!(resolve_label(Some(CiSignal::Failure), pr), Some(StatusLabel::CiFailed));
    assert_eq!(resolve_label(None, PrSignal::Merged), Some(StatusLabel::PrMerged));
    assert_eq!(resolve_label(None, PrSignal::NoPr), None);
}

#[test]
fn resolution_gives_the_same_label_for_the_same_data() {
    let make = |base: i64| {
        (
            vec![
                run(base + 1, Some(WorkflowRunConclusion::Success)),
                run(base + 2, None),
            ],
            vec![
                review(base + 3, ReviewState::Commented, base + 10),
                review(base + 4, ReviewState::ChangesRequested, base + 20),
            ],
        )
    };
    let (runs1, reviews1) = make(0);
    let (runs2, reviews2) = make(1000);
    let first = resolve_status(
        &Some(runs1),
        &None,
        resolve_pr(&Some(pull_request(Some(false))), &Some(reviews1)),
    );
    let second = resolve_status(
        &Some(runs2),
        &None,
        resolve_pr(&Some(pull_request(Some(false))), &Some(reviews2)),
    );
    assert_eq!(first, Some(StatusLabel::PrChangesRequested));
    assert_eq!(first, second);
}

#[test]
fn each_label_maps_to_its_event() {
    assert_eq!(event_for_label(StatusLabel::CiFailed), Some(NotificationEvent::CiFailure));
    assert_eq!(event_for_label(StatusLabel::CiGreen), Some(NotificationEvent::CiSuccess));
    assert_eq!(event_for_label(StatusLabel::PrMerged), Some(NotificationEvent::PrMerged));
    assert_eq!(event_for_label(StatusLabel::PrApproved), Some(NotificationEvent::PrApproved));
    assert_eq!(
        event_for_label(StatusLabel::PrChangesRequested),
        Some(NotificationEvent::PrChangesRequested)
    );
    assert_eq!(event_for_label(StatusLabel::PrNewComment), Some(NotificationEvent::PrNewComment));
    assert_eq!(event_for_label(StatusLabel::NoStatus), None);
}
