//! What a command sees while it runs: the pull request it was given on,
//! the settings, and the forge to make calls on.

use crate::config::RepoConfig;
use crate::forge::{ActionView, GithubClient, ProjectBoard};
use crate::git::GitRepository;
use crate::state::{PullRequestState, PullView, Status};
use crate::text;
use vstd::prelude::*;

verus! {

/// The context of a command on a pull request that is open.
pub struct ActivePullRequestContext<'a> {
    pub pull_request: &'a mut PullRequestState,
    pub github: &'a mut GithubClient,
    pub config: &'a RepoConfig,
    pub project_board: Option<&'a ProjectBoard>,
    pub sender: &'a str,
}

impl<'a> ActivePullRequestContext<'a> {
    /// The pull request as it stands.
    pub open spec fn pull(&self) -> PullView {
        mut_ref_current(self.pull_request)@
    }

    /// The calls recorded so far.
    pub open spec fn calls(&self) -> Seq<ActionView> {
        mut_ref_current(self.github)@
    }

    /// Whether the settings, the board and the sender are those of `other`.
    pub open spec fn same_setting(&self, other: &Self) -> bool {
        &&& self.config == other.config
        &&& self.project_board == other.project_board
        &&& self.sender == other.sender
    }

    pub fn pr(&self) -> (r: &PullRequestState)
        ensures
            r@ == self.pull(),
    {
        &*self.pull_request
    }

    pub fn pr_mut(&mut self) -> (r: &mut PullRequestState)
        ensures
            *r == mut_ref_current(old(self).pull_request),
            mut_ref_current(final(self).pull_request) == *final(r),
            mut_ref_future(final(self).pull_request) == mut_ref_future(old(self).pull_request),
            final(self).github == old(self).github,
            final(self).same_setting(old(self)),
    {
        &mut *self.pull_request
    }

    pub fn github(&self) -> (r: &GithubClient)
        ensures
            r@ == self.calls(),
    {
        &*self.github
    }

    pub fn config(&self) -> (r: &RepoConfig)
        ensures
            r == self.config,
    {
        self.config
    }

    pub fn project_board(&self) -> (r: Option<&'a ProjectBoard>)
        ensures
            r == self.project_board,
    {
        self.project_board
    }

    pub fn sender(&self) -> (r: &str)
        ensures
            r@ == self.sender@,
    {
        self.sender
    }

    /// Asks for `body` to be posted on the pull request.
    pub fn create_pr_comment(&mut self, body: &str)
        ensures
            final(self).calls() == old(self).calls().push(
                ActionView::CreateComment { number: old(self).pull().number, body: body@ },
            ),
            final(self).pull_request == old(self).pull_request,
            mut_ref_future(final(self).github) == mut_ref_future(old(self).github),
            final(self).same_setting(old(self)),
    {
        self.github.create_comment(self.pull_request.number, String::from_str(body));
    }

    /// Sets the status of the pull request.
    pub fn update_pr_status(&mut self, status: Status)
        ensures
            final(self).pull() == old(self).pull().with_status(status@, &old(self).config.labels),
            final(self).calls() == old(self).calls() + old(self).pull().status_calls(
                status@,
                &old(self).config.labels,
            ),
            mut_ref_future(final(self).pull_request) == mut_ref_future(old(self).pull_request),
            mut_ref_future(final(self).github) == mut_ref_future(old(self).github),
            final(self).same_setting(old(self)),
    {
        self.pull_request.update_status(status, self.config, self.github);
    }

    /// Puts `label` on the pull request.
    pub fn set_label(&mut self, label: &str)
        ensures
            final(self).pull() == old(self).pull().labeled(label@, &old(self).config.labels),
            final(self).calls() == old(self).calls().push(
                ActionView::AddLabel { number: old(self).pull().number, label: label@ },
            ),
            mut_ref_future(final(self).pull_request) == mut_ref_future(old(self).pull_request),
            mut_ref_future(final(self).github) == mut_ref_future(old(self).github),
            final(self).same_setting(old(self)),
    {
        self.pull_request.add_label(self.config, self.github, label);
    }

    /// Takes `label` off the pull request.
    pub fn remove_label(&mut self, label: &str)
        ensures
            final(self).pull() == old(self).pull().unlabeled(label@, &old(self).config.labels),
            final(self).calls() == old(self).calls().push(
                ActionView::RemoveLabel { number: old(self).pull().number, label: label@ },
            ),
            mut_ref_future(final(self).pull_request) == mut_ref_future(old(self).pull_request),
            mut_ref_future(final(self).github) == mut_ref_future(old(self).github),
            final(self).same_setting(old(self)),
    {
        self.pull_request.remove_label(self.config, self.github, label);
    }
}

/// The context of a command: the number of the pull request it was given
/// on and, if that pull request is open, its record.
pub struct CommandContext<'a> {
    pub number: u64,
    pub pull_request: Option<&'a mut PullRequestState>,
    pub github: &'a mut GithubClient,
    pub config: &'a RepoConfig,
    pub repo: &'a mut GitRepository,
    pub project_board: Option<&'a ProjectBoard>,
    pub sender: &'a str,
}

impl<'a> CommandContext<'a> {
    /// The pull request as it stands, if it is open.
    pub open spec fn pull(&self) -> Option<PullView> {
        match self.pull_request {
            Some(p) => Some(mut_ref_current(p)@),
            None => None,
        }
    }

    /// The calls recorded so far.
    pub open spec fn calls(&self) -> Seq<ActionView> {
        mut_ref_current(self.github)@
    }

    /// Whether the number, the settings, the board and the sender are those
    /// of `other`.
    pub open spec fn same_setting(&self, other: &Self) -> bool {
        &&& self.number == other.number
        &&& self.config == other.config
        &&& self.project_board == other.project_board
        &&& self.sender == other.sender
    }

    /// The context for a command that needs the pull request to be open. On
    /// a pull request that is not, the sender is told so and there is none.
    pub fn active_pull_request_context(&mut self) -> (r: Option<ActivePullRequestContext<'_>>)
        ensures
            r is Some == old(self).pull_request is Some,
            r matches Some(a) ==> {
                &&& a.pull() == old(self).pull()->0
                &&& a.calls() == old(self).calls()
                &&& a.config == old(self).config
                &&& a.project_board == old(self).project_board
                &&& a.sender == old(self).sender
                &&& final(self).pull() == Some(mut_ref_future(a.pull_request)@)
                &&& final(self).calls() == mut_ref_future(a.github)@
            },
            r is None ==> final(self).calls() == old(self).calls().push(
                ActionView::CreateComment {
                    number: old(self).number,
                    body: text::closed_text(old(self).sender@),
                },
            ),
            final(self).pull_request is Some == old(self).pull_request is Some,
            final(self).pull_request is Some ==> mut_ref_future(final(self).pull_request->0)
                == mut_ref_future(old(self).pull_request->0),
            mut_ref_future(final(self).github) == mut_ref_future(old(self).github),
            final(self).repo == old(self).repo,
            final(self).same_setting(old(self)),
    {
        match &mut self.pull_request {
            Some(pull_request) => Some(
                ActivePullRequestContext {
                    pull_request: &mut **pull_request,
                    github: &mut *self.github,
                    config: self.config,
                    project_board: self.project_board,
                    sender: self.sender,
                },
            ),
            None => {
                self.github.create_comment(self.number, text::closed(self.sender));
                None
            },
        }
    }

    pub fn number(&self) -> (r: u64)
        ensures
            r == self.number,
    {
        self.number
    }

    pub fn pr(&self) -> (r: Option<&PullRequestState>)
        ensures
            r is Some == self.pull() is Some,
            r matches Some(p) ==> p@ == self.pull()->0,
    {
        match &self.pull_request {
            Some(p) => Some(&**p),
            None => None,
        }
    }

    pub fn pr_mut(&mut self) -> (r: Option<&mut PullRequestState>)
        ensures
            r is Some == old(self).pull_request is Some,
            r matches Some(p) ==> *p == mut_ref_current(old(self).pull_request->0)
                && mut_ref_current(final(self).pull_request->0) == *final(p),
            final(self).pull_request is Some == old(self).pull_request is Some,
            final(self).pull_request is Some ==> mut_ref_future(final(self).pull_request->0)
                == mut_ref_future(old(self).pull_request->0),
            final(self).github == old(self).github,
            final(self).repo == old(self).repo,
            final(self).same_setting(old(self)),
    {
        match &mut self.pull_request {
            Some(p) => Some(&mut **p),
            None => None,
        }
    }

    pub fn git_repository(&mut self) -> (r: &mut GitRepository)
        ensures
            *r == mut_ref_current(old(self).repo),
            mut_ref_current(final(self).repo) == *final(r),
            mut_ref_future(final(self).repo) == mut_ref_future(old(self).repo),
            final(self).pull_request == old(self).pull_request,
            final(self).github == old(self).github,
            final(self).same_setting(old(self)),
    {
        &mut *self.repo
    }

    pub fn github(&self) -> (r: &GithubClient)
        ensures
            r@ == self.calls(),
    {
        &*self.github
    }

    pub fn config(&self) -> (r: &RepoConfig)
        ensures
            r == self.config,
    {
        self.config
    }

    pub fn project_board(&self) -> (r: Option<&'a ProjectBoard>)
        ensures
            r == self.project_board,
    {
        self.project_board
    }

    pub fn sender(&self) -> (r: &str)
        ensures
            r@ == self.sender@,
    {
        self.sender
    }

    /// Asks for `body` to be posted on the pull request the command was given on.
    pub fn create_pr_comment(&mut self, body: &str)
        ensures
            final(self).calls() == old(self).calls().push(
                ActionView::CreateComment { number: old(self).number, body: body@ },
            ),
            final(self).pull_request == old(self).pull_request,
            mut_ref_future(final(self).github) == mut_ref_future(old(self).github),
            final(self).repo == old(self).repo,
            final(self).same_setting(old(self)),
    {
        self.github.create_comment(self.number, String::from_str(body));
    }
}

} // verus!
