//! Webhook events, reduced to what the event processor reads of them.

use crate::config::Repo;
use crate::state::Conclusion;
use vstd::prelude::*;

verus! {

/// One end of a pull request: a branch and the commit it points to.
#[derive(Clone, Debug)]
pub struct Branch {
    pub git_ref: String,
    pub sha: String,
    /// The repository that holds the branch, unless it was deleted.
    pub repo: Option<Repo>,
}

/// A pull request as a webhook payload or a listing describes it.
#[derive(Clone, Debug)]
pub struct PullRequest {
    pub number: u64,
    pub title: String,
    pub body: Option<String>,
    pub author: String,
    pub head: Branch,
    pub base: Branch,
    pub labels: Vec<String>,
    pub draft: bool,
    pub maintainer_can_modify: Option<bool>,
    pub merged: Option<bool>,
}

#[derive(Clone, Copy, Debug, PartialEq, Eq, Structural)]
pub enum PullRequestEventAction {
    Opened,
    Reopened,
    Synchronize,
    Closed,
    Labeled,
    Unlabeled,
    ConvertedToDraft,
    ReadyForReview,
    Edited,
    Other,
}

#[derive(Clone, Debug)]
pub struct PullRequestEvent {
    pub action: PullRequestEventAction,
    pub pull_request: PullRequest,
    /// The label added or removed, for `Labeled` and `Unlabeled`.
    pub label: Option<String>,
    pub repository: Repo,
}

#[derive(Clone, Copy, Debug, PartialEq, Eq, Structural)]
pub enum CheckRunEventAction {
    Created,
    Completed,
    Rerequested,
    RequestedAction,
}

#[derive(Clone, Copy, Debug, PartialEq, Eq, Structural)]
pub enum CheckStatus {
    Queued,
    InProgress,
    Completed,
}

#[derive(Clone, Debug)]
pub struct CheckRun {
    pub name: String,
    pub head_sha: String,
    pub status: CheckStatus,
    pub conclusion: Option<Conclusion>,
    pub details_url: String,
}

#[derive(Clone, Debug)]
pub struct CheckRunEvent {
    pub action: CheckRunEventAction,
    pub check_run: CheckRun,
    pub repository: Repo,
}

#[derive(Clone, Copy, Debug, PartialEq, Eq, Structural)]
pub enum StatusEventState {
    Pending,
    Success,
    Failure,
    Error,
}

#[derive(Clone, Debug)]
pub struct StatusEvent {
    pub sha: String,
    pub context: String,
    pub target_url: Option<String>,
    pub state: StatusEventState,
    pub repository: Repo,
}

#[derive(Clone, Copy, Debug, PartialEq, Eq, Structural)]
pub enum CommentAction {
    Created,
    Edited,
    Deleted,
}

impl CommentAction {
    pub fn is_created(&self) -> (r: bool)
        ensures
            r == (*self == CommentAction::Created),
    {
        match self {
            CommentAction::Created => true,
            _ => false,
        }
    }
}

#[derive(Clone, Debug)]
pub struct Comment {
    pub body: Option<String>,
    pub node_id: String,
}

impl Comment {
    pub fn body(&self) -> (r: Option<&str>)
        ensures
            r is Some == self.body is Some,
            r matches Some(s) ==> s@ == self.body->0@,
    {
        match &self.body {
            Some(s) => Some(s.as_str()),
            None => None,
        }
    }
}

#[derive(Clone, Debug)]
pub struct Issue {
    pub number: u64,
    /// Whether the issue is the conversation of a pull request.
    pub pull_request: bool,
}

impl Issue {
    pub fn is_pull_request(&self) -> (r: bool)
        ensures
            r == self.pull_request,
    {
        self.pull_request
    }
}

#[derive(Clone, Debug)]
pub struct IssueCommentEvent {
    pub action: CommentAction,
    pub issue: Issue,
    pub comment: Comment,
    pub sender: String,
    pub repository: Repo,
}

#[derive(Clone, Debug)]
pub struct PullRequestReviewCommentEvent {
    pub action: CommentAction,
    /// Number of the pull request the comment was made on.
    pub number: u64,
    pub comment: Comment,
    pub sender: String,
    pub repository: Repo,
}

#[derive(Clone, Copy, Debug, PartialEq, Eq, Structural)]
pub enum ReviewAction {
    Submitted,
    Edited,
    Dismissed,
}

impl ReviewAction {
    pub fn is_submitted(&self) -> (r: bool)
        ensures
            r == (*self == ReviewAction::Submitted),
    {
        match self {
            ReviewAction::Submitted => true,
            _ => false,
        }
    }
}

#[derive(Clone, Copy, Debug, PartialEq, Eq, Structural)]
pub enum ReviewState {
    Approved,
    ChangesRequested,
    Commented,
    Dismissed,
    Pending,
}

#[derive(Clone, Debug)]
pub struct Review {
    pub state: ReviewState,
    pub body: Option<String>,
    pub node_id: String,
}

impl Review {
    pub fn body(&self) -> (r: Option<&str>)
        ensures
            r is Some == self.body is Some,
            r matches Some(s) ==> s@ == self.body->0@,
    {
        match &self.body {
            Some(s) => Some(s.as_str()),
            None => None,
        }
    }
}

#[derive(Clone, Debug)]
pub struct PullRequestReviewEvent {
    pub action: ReviewAction,
    /// Number of the pull request under review.
    pub number: u64,
    pub review: Review,
    pub sender: String,
    pub repository: Repo,
}

/// A webhook delivery, by kind.
#[derive(Clone, Debug)]
pub enum Event {
    PullRequest(PullRequestEvent),
    CheckRun(CheckRunEvent),
    Status(StatusEvent),
    IssueComment(IssueCommentEvent),
    PullRequestReview(PullRequestReviewEvent),
    PullRequestReviewComment(PullRequestReviewCommentEvent),
    /// Any other kind; it may still name a repository.
    Unsupported { repository: Option<Repo> },
}

impl Event {
    /// The repository the event is about.
    pub open spec fn source(&self) -> Option<Repo> {
        match *self {
            Event::PullRequest(e) => Some(e.repository),
            Event::CheckRun(e) => Some(e.repository),
            Event::Status(e) => Some(e.repository),
            Event::IssueComment(e) => Some(e.repository),
            Event::PullRequestReview(e) => Some(e.repository),
            Event::PullRequestReviewComment(e) => Some(e.repository),
            Event::Unsupported { repository } => repository,
        }
    }

    pub fn repository(&self) -> (r: Option<&Repo>)
        ensures
            r is Some == self.source() is Some,
            r matches Some(repo) ==> *repo == self.source()->0,
    {
        match self {
            Event::PullRequest(e) => Some(&e.repository),
            Event::CheckRun(e) => Some(&e.repository),
            Event::Status(e) => Some(&e.repository),
            Event::IssueComment(e) => Some(&e.repository),
            Event::PullRequestReview(e) => Some(&e.repository),
            Event::PullRequestReviewComment(e) => Some(&e.repository),
            Event::Unsupported { repository } => match repository {
                Some(r) => Some(r),
                None => None,
            },
        }
    }
}

} // verus!
