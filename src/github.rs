//! Records of the remote platform, as the logic reads them. Timestamps are
//! seconds since the Unix epoch.

use vstd::prelude::*;

verus! {

/// The status of a workflow run or check run.
#[derive(Debug, Clone, Copy, PartialEq, Eq, Structural)]
pub enum WorkflowRunStatus {
    Completed,
    ActionRequired,
    Cancelled,
    Failure,
    Neutral,
    Skipped,
    Stale,
    Success,
    TimedOut,
    InProgress,
    Queued,
    Requested,
    Waiting,
    Pending,
}

/// The conclusion of a finished workflow run or check run.
#[derive(Debug, Clone, Copy, PartialEq, Eq, Structural)]
pub enum WorkflowRunConclusion {
    Success,
    Failure,
    Cancelled,
    ActionRequired,
    Neutral,
    Skipped,
    Stale,
    TimedOut,
}

/// A single workflow run of the platform's CI.
#[derive(Debug, Clone)]
pub struct WorkflowRun {
    pub id: i64,
    pub status: WorkflowRunStatus,
    pub conclusion: Option<WorkflowRunConclusion>,
    pub created_at: i64,
    pub updated_at: i64,
}

/// A page of workflow runs.
#[derive(Debug, Clone)]
pub struct ListWorkflowRuns {
    pub workflow_runs: Vec<WorkflowRun>,
}

/// A CI job's reported outcome for a commit.
#[derive(Debug, Clone)]
pub struct CheckRun {
    pub id: i64,
    pub status: WorkflowRunStatus,
    pub conclusion: Option<WorkflowRunConclusion>,
}

/// The state of a legacy commit status.
#[derive(Debug, Clone, Copy, PartialEq, Eq, Structural)]
pub enum CommitState {
    Error,
    Failure,
    Pending,
    Success,
}

/// A legacy single-value status report for a commit.
#[derive(Debug, Clone)]
pub struct CommitStatus {
    pub state: CommitState,
}

/// A pull request.
#[derive(Debug, Clone)]
pub struct PullRequest {
    pub id: i64,
    pub number: u64,
    pub title: String,
    pub merged: Option<bool>,
    pub merged_at: Option<i64>,
    pub created_at: i64,
    pub updated_at: i64,
}

/// A comment in a pull request's conversation.
#[derive(Debug, Clone)]
pub struct Comment {
    pub id: i64,
    pub body: String,
    pub created_at: i64,
}

/// A review of a pull request.
#[derive(Debug, Clone)]
pub struct Review {
    pub id: i64,
    pub state: ReviewState,
    pub submitted_at: i64,
}

/// The state of a pull request review.
#[derive(Debug, Clone, Copy, PartialEq, Eq, Structural)]
pub enum ReviewState {
    Approved,
    ChangesRequested,
    Commented,
    Dismissed,
    Pending,
}

} // verus!
