//! Operator commands, as the comment parser hands them over.

use crate::config::RepoConfig;
use crate::context::CommandContext;
use crate::forge::ActionView;
use crate::state::{PullView, Status};
use crate::text;
use crate::text::{closed_text, help_text, pong_text};
use vstd::prelude::*;

verus! {

/// What an operator asks for in a comment.
#[derive(Clone, Copy, Debug, PartialEq, Eq, Structural)]
pub enum Command {
    /// `r+` or `approve`: approve, and queue if the pull request may be
    /// tested and is neither queued nor under test for a merge.
    Approve,
    /// `r-`: withdraw the approval.
    Unapprove,
    /// `retry`: queue a pull request that went back to review from a test.
    Retry,
    /// `try`: test without merging.
    Try,
    /// `p=<int>`: set the priority.
    Priority(i64),
    /// `cancel`: stop the running test.
    Cancel,
    /// `ping`: ask whether the bot is alive.
    Ping,
    /// `help`: ask for the list of commands.
    Help,
}

/// What the comment parser made of a comment.
#[derive(Clone, Copy, Debug, PartialEq, Eq, Structural)]
pub enum ParsedComment {
    /// The comment does not address the bot.
    NoCommand,
    /// The comment addresses the bot with something that is no command.
    Invalid,
    Valid(Command),
}

impl Command {
    /// Whether the command sends the pull request `p` back to review.
    pub open spec fn demotes(self, p: PullView) -> bool {
        match self {
            Command::Unapprove => p.status is Queued || p.status is Testing,
            Command::Cancel => p.status is Testing || p.status is Canary,
            _ => false,
        }
    }

    /// Whether the command queues the pull request `p`.
    pub open spec fn enqueues(self, p: PullView, config: &RepoConfig) -> bool {
        match self {
            Command::Approve => (p.status is InReview || p.status is Canary) && (PullView {
                approved: true,
                ..p
            }).eligible(config),
            Command::Retry => p.status is InReview && p.tested && p.eligible(config),
            _ => false,
        }
    }

    /// The pull request `p` after the command, issued at `now`.
    pub open spec fn effect(self, p: PullView, config: &RepoConfig, now: u64) -> PullView {
        let q = match self {
            Command::Approve => PullView { approved: true, ..p },
            Command::Unapprove => PullView { approved: false, ..p },
            Command::Priority(n) => p.with_priority(n),
            _ => p,
        };
        if self.demotes(p) {
            q.demoted(&config.labels)
        } else if self.enqueues(p, config) {
            q.enqueued(now)
        } else {
            q
        }
    }

    /// The calls that the command makes when `sender` gives it on pull
    /// request `number`, whose record is `p` if it is open: `ping` and
    /// `help` answer in any case, every other command needs the pull
    /// request to be open and says so where it is not.
    pub open spec fn calls(
        self,
        number: u64,
        p: Option<PullView>,
        sender: Seq<char>,
        config: &RepoConfig,
    ) -> Seq<ActionView> {
        match self {
            Command::Ping => seq![ActionView::CreateComment { number, body: pong_text() }],
            Command::Help => seq![ActionView::CreateComment { number, body: help_text() }],
            _ => match p {
                None => seq![ActionView::CreateComment { number, body: closed_text(sender) }],
                Some(p) => if self.demotes(p) {
                    p.demote_calls(&config.labels)
                } else {
                    Seq::empty()
                },
            },
        }
    }

    /// Whether the command asks for a test-only merge commit of `p`.
    pub open spec fn wants_canary(self, p: PullView) -> bool {
        self == Command::Try && p.status is InReview
    }

    /// Carries the command out. The result says whether a test-only merge
    /// commit is to be made.
    pub fn execute(&self, ctx: &mut CommandContext<'_>, now: u64) -> (canary: bool)
        ensures
            final(ctx).pull() == match old(ctx).pull() {
                Some(p) => Some(self.effect(p, old(ctx).config, now)),
                None => None,
            },
            final(ctx).calls() == old(ctx).calls() + self.calls(
                old(ctx).number,
                old(ctx).pull(),
                old(ctx).sender@,
                old(ctx).config,
            ),
            canary == (old(ctx).pull() matches Some(p) && self.wants_canary(p)),
            final(ctx).pull_request is Some == old(ctx).pull_request is Some,
            final(ctx).pull_request is Some ==> mut_ref_future(final(ctx).pull_request->0)
                == mut_ref_future(old(ctx).pull_request->0),
            mut_ref_future(final(ctx).github) == mut_ref_future(old(ctx).github),
            final(ctx).repo == old(ctx).repo,
            final(ctx).same_setting(old(ctx)),
    {
        match self {
            Command::Ping => {
                ctx.create_pr_comment(text::pong().as_str());
                false
            },
            Command::Help => {
                ctx.create_pr_comment(text::help().as_str());
                false
            },
            _ => match ctx.active_pull_request_context() {
                None => false,
                Some(mut active) => {
                    let ghost calls = active.calls();
                    let in_review = match &active.pr().status {
                        Status::InReview => true,
                        _ => false,
                    };
                    let queued = match &active.pr().status {
                        Status::Queued { .. } => true,
                        _ => false,
                    };
                    let testing = match &active.pr().status {
                        Status::Testing { .. } => true,
                        _ => false,
                    };
                    let canary = match &active.pr().status {
                        Status::Canary { .. } => true,
                        _ => false,
                    };
                    match self {
                        Command::Approve => {
                            active.pr_mut().approved = true;
                            if (in_review || canary) && active.pr().eligible(active.config()) {
                                active.pr_mut().enqueue(now);
                            }
                            assert(active.calls() =~= calls + Seq::<ActionView>::empty());
                            false
                        },
                        Command::Unapprove => {
                            active.pr_mut().approved = false;
                            if queued || testing {
                                active.update_pr_status(Status::InReview);
                            } else {
                                assert(active.calls() =~= calls + Seq::<ActionView>::empty());
                            }
                            false
                        },
                        Command::Retry => {
                            if in_review && active.pr().tested && active.pr().eligible(
                                active.config(),
                            ) {
                                active.pr_mut().enqueue(now);
                            }
                            assert(active.calls() =~= calls + Seq::<ActionView>::empty());
                            false
                        },
                        Command::Try => {
                            assert(active.calls() =~= calls + Seq::<ActionView>::empty());
                            in_review
                        },
                        Command::Priority(n) => {
                            active.pr_mut().set_priority(*n);
                            assert(active.calls() =~= calls + Seq::<ActionView>::empty());
                            false
                        },
                        Command::Cancel => {
                            if testing || canary {
                                active.update_pr_status(Status::InReview);
                            } else {
                                assert(active.calls() =~= calls + Seq::<ActionView>::empty());
                            }
                            false
                        },
                        _ => {
                            assert(active.calls() =~= calls + Seq::<ActionView>::empty());
                            false
                        },
                    }
                },
            },
        }
    }
}

} // verus!
