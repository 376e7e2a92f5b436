//! The event processor of one repository: it takes webhook events and the
//! answers of the outside world, keeps the table of open pull requests,
//! and says which calls to make and what to do next.

use crate::command::{Command, ParsedComment};
use crate::config::{GitConfig, RepoConfig};
use crate::context::CommandContext;
use crate::event::{
    CheckRunEvent, CheckRunEventAction, CheckStatus, Event, PullRequest, PullRequestEvent,
    PullRequestEventAction, PullRequestReviewEvent, ReviewState, StatusEvent, StatusEventState,
};
use crate::forge::{card_deleted, ActionView, GithubClient, ProjectBoard, ReactionType};
use crate::git::GitRepository;
use crate::model::{Progress, State};
use crate::queue::{
    find_merge_oid, is_usable, landed, lemma_landed_keeps_inv, lemma_prepared_keeps_inv,
    lemma_table_keyed, lemma_tick_keeps_inv, prepare, prepared, tick, InFlight, MergeQueue,
};
use crate::state::{copy_labels, has_label, insert_label, label_set, results_of};
use crate::state::{BuildResult, BuildResultView, Conclusion, PullRequestState, PullView, Status};
use crate::step::{Outcome, Step, StepView};
use crate::table::{at, lemma_table_entry, lemma_table_update, place_of, PullTable};
use crate::text;
use crate::transition::{
    after_review, canary_prepared, check_run_event, commanded, comment_step, commented, created,
    holder, lemma_build_result_keeps_inv, lemma_canary_keeps_inv, lemma_command_keeps_inv,
    lemma_holder, lemma_listed_keeps_inv, lemma_pull_request_event_keeps_inv, lemma_tame_update,
    listed, lookup, missing_labels, opened, option_text, pull_request_event, review_decision,
    review_event, REVIEW_RETRY_DELAY_MS, status_event, synchronized, then_tick, touched, webhook,
    with_build_result,
};
use vstd::prelude::*;

verus! {

/// What comes in through the inbox of the event processor.
#[derive(Debug)]
pub enum Request {
    /// A webhook delivery.
    Webhook { event: Event, delivery_id: String },
    /// Someone asks for a copy of the state.
    GetState,
    /// The state is to be rebuilt from the forge.
    Synchronize,
}

/// What a request from the inbox leads to.
pub open spec fn requested(
    s: State,
    config: &RepoConfig,
    board: Option<ProjectBoard>,
    request: &Request,
    now: u64,
) -> Progress {
    match *request {
        Request::Webhook { event, .. } => webhook(s, config, board, &event, now),
        Request::GetState => Progress {
            state: s,
            calls: Seq::empty(),
            next: StepView::Snapshot { head: s.head, pulls: s.pulls },
        },
        Request::Synchronize => Progress {
            state: s,
            calls: Seq::empty(),
            next: StepView::Synchronize,
        },
    }
}

/// The event processor of one repository.
#[derive(Debug)]
pub struct EventProcessor {
    pub config: RepoConfig,
    pub github: GithubClient,
    pub git_repository: GitRepository,
    pub merge_queue: MergeQueue,
    pub project_board: Option<ProjectBoard>,
    pub pulls: PullTable,
}

impl View for EventProcessor {
    type V = State;

    open spec fn view(&self) -> State {
        State { pulls: self.pulls@, head: self.merge_queue.head }
    }
}

impl EventProcessor {
    /// Whether the table holds no number twice and is in order.
    pub open spec fn wf(&self) -> bool {
        self.pulls.wf() && self@.inv()
    }

    /// Whether settings, working copy and board are those of `other`.
    pub open spec fn same_setting(&self, other: &Self) -> bool {
        &&& self.config == other.config
        &&& self.git_repository == other.git_repository
        &&& self.project_board == other.project_board
    }

    /// An event processor that knows of no pull request yet.
    pub fn new(config: RepoConfig, git_config: &GitConfig) -> (r: Self)
        ensures
            r.wf(),
            r@ == (State { pulls: Map::empty(), head: None }),
            r.config == config,
            r.project_board is None,
            r.github@ == Seq::<ActionView>::empty(),
            r.git_repository.ssh_key_file == git_config.ssh_key_file,
            r.git_repository.user == git_config.user,
            r.git_repository.email == git_config.email,
            r.git_repository.remote == config.repo,
    {
        let git_repository = GitRepository::from_config(git_config, config.repo());
        EventProcessor {
            config,
            github: GithubClient::new(),
            git_repository,
            merge_queue: MergeQueue::new(),
            project_board: None,
            pulls: PullTable::new(),
        }
    }

    /// Changes the record at place `i` as the event says.
    fn touch(&mut self, i: usize, event: &PullRequestEvent)
        requires
            i < old(self).pulls.entries@.len(),
        ensures
            final(self).pulls.entries@ == old(self).pulls.entries@.update(
                i as int,
                final(self).pulls.entries@[i as int],
            ),
            ({
                let t = touched(old(self).pulls.entries@[i as int]@, &old(self).config, event);
                &&& final(self).pulls.entries@[i as int]@ == t.0
                &&& final(self).github@ == old(self).github@ + t.1
            }),
            final(self).merge_queue == old(self).merge_queue,
            final(self).same_setting(old(self)),
    {
        match event.action {
            PullRequestEventAction::Synchronize => {
                self.pulls.entries[i].update_head(
                    event.pull_request.head.sha.clone(),
                    &self.config,
                    &mut self.github,
                );
            },
            PullRequestEventAction::Labeled => {
                match &event.label {
                    Some(label) => {
                        self.pulls.entries[i].labeled(label.as_str(), self.config.labels());
                    },
                    None => {},
                }
                assert(self.github@ =~= old(self).github@ + Seq::<ActionView>::empty());
            },
            PullRequestEventAction::Unlabeled => {
                match &event.label {
                    Some(label) => {
                        self.pulls.entries[i].unlabeled(label.as_str(), self.config.labels());
                    },
                    None => {},
                }
                assert(self.github@ =~= old(self).github@ + Seq::<ActionView>::empty());
            },
            PullRequestEventAction::ConvertedToDraft => {
                self.pulls.entries[i].is_draft = true;
                assert(self.github@ =~= old(self).github@ + Seq::<ActionView>::empty());
            },
            PullRequestEventAction::ReadyForReview => {
                self.pulls.entries[i].is_draft = false;
                assert(self.github@ =~= old(self).github@ + Seq::<ActionView>::empty());
            },
            PullRequestEventAction::Edited => {
                let pull = &mut self.pulls.entries[i];
                pull.title = event.pull_request.title.clone();
                pull.body = match &event.pull_request.body {
                    Some(b) => b.clone(),
                    None => String::new(),
                };
                pull.update_base_ref(
                    event.pull_request.base.git_ref.as_str(),
                    event.pull_request.base.sha.as_str(),
                    &self.config,
                    &mut self.github,
                );
                match event.pull_request.maintainer_can_modify {
                    Some(b) => {
                        pull.maintainer_can_modify = b;
                    },
                    None => {},
                }
            },
            _ => {
                assert(self.github@ =~= old(self).github@ + Seq::<ActionView>::empty());
            },
        }
        assert(self.pulls.entries@ =~= old(self).pulls.entries@.update(
            i as int,
            self.pulls.entries@[i as int],
        ));
    }

    /// Takes a pull request event into the table. The calls that go with
    /// it stay on record until the next outcome hands them out.
    pub fn handle_pull_request_event(&mut self, event: &PullRequestEvent)
        requires
            old(self).wf(),
        ensures
            final(self).wf(),
            ({
                let c = pull_request_event(
                    old(self)@.pulls,
                    &old(self).config,
                    old(self).project_board,
                    event,
                );
                &&& final(self)@ == (State { pulls: c.pulls, head: old(self)@.head })
                &&& final(self).github@ == old(self).github@ + c.calls
            }),
            final(self).same_setting(old(self)),
    {
        let number = event.pull_request.number;
        proof {
            lemma_pull_request_event_keeps_inv(
                old(self)@,
                &old(self).config,
                old(self).project_board,
                event,
            );
        }
        match event.action {
            PullRequestEventAction::Opened => {
                self.open(&event.pull_request);
            },
            PullRequestEventAction::Reopened => {
                self.open(&event.pull_request);
            },
            PullRequestEventAction::Closed => {
                self.pulls.remove(number);
                match self.project_board {
                    Some(board) => {
                        board.delete_card(&mut self.github, number);
                    },
                    None => {},
                }
                assert(self.github@ =~= old(self).github@ + card_deleted(
                    old(self).project_board,
                    number,
                ));
            },
            _ => {
                match self.pulls.position(number) {
                    Some(i) => {
                        self.touch(i, event);
                        proof {
                            let before = old(self).pulls.entries@;
                            let after = self.pulls.entries@[i as int];
                            assert(after.number == before[i as int].number) by {
                                assert(after@.number == before[i as int]@.number);
                            }
                            lemma_table_update(before, i as int, after);
                        }
                    },
                    None => {
                        assert(self.github@ =~= old(self).github@ + Seq::<ActionView>::empty());
                    },
                }
            },
        }
    }

    /// Puts a fresh record for `pull` into the table.
    fn open(&mut self, pull: &PullRequest)
        requires
            old(self).pulls.wf(),
        ensures
            final(self).pulls.wf(),
            ({
                let c = opened(old(self)@.pulls, &old(self).config, old(self).project_board, pull);
                &&& final(self)@ == (State { pulls: c.pulls, head: old(self)@.head })
                &&& final(self).github@ == old(self).github@ + c.calls
            }),
            final(self).same_setting(old(self)),
    {
        let state = PullRequestState::from_pull_request(pull, self.config.labels());
        let from_base = match &state.head_repo {
            Some(repo) => self.config.repo().matches(repo),
            None => false,
        };
        if self.config.maintainer_mode() && !state.maintainer_can_modify && !from_base {
            self.github.create_comment(state.number, text::maintainer_edits());
        }
        match self.project_board {
            Some(board) => {
                board.create_card(&mut self.github, state.number);
            },
            None => {},
        }
        proof {
            let c = opened(old(self)@.pulls, &old(self).config, old(self).project_board, pull);
            assert(self.github@ =~= old(self).github@ + c.calls);
        }
        self.pulls.insert(state);
    }

    /// The pull request whose merge commit is `oid`.
    pub fn pull_from_merge_oid(&mut self, oid: &str) -> (r: Option<&mut PullRequestState>)
        requires
            old(self).wf(),
        ensures
            match r {
                Some(p) => {
                    let i = place_of(old(self).pulls.entries@, p.number);
                    &&& 0 <= i < old(self).pulls.entries@.len()
                    &&& *p == old(self).pulls.entries@[i]
                    &&& holder(old(self)@.pulls, oid@) == Some(p.number)
                    &&& final(self).pulls.entries@ == old(self).pulls.entries@.update(i, *final(p))
                },
                None => holder(old(self)@.pulls, oid@) is None && final(self).pulls == old(
                    self,
                ).pulls,
            },
            final(self).github == old(self).github,
            final(self).merge_queue == old(self).merge_queue,
            final(self).same_setting(old(self)),
    {
        match find_merge_oid(&self.pulls, oid) {
            Some(i) => {
                proof {
                    lemma_table_entry(self.pulls.entries@, i as int);
                    lemma_holder(self@, oid@, self.pulls.entries@[i as int].number);
                }
                Some(&mut self.pulls.entries[i])
            },
            None => {
                proof {
                    let s = self.pulls.entries@;
                    assert forall|n: u64| self.pulls@.contains_key(n) implies (
                    #[trigger] self.pulls@[n]).status.merge_oid() != Some(oid@) by {
                        let j = choose|j: int| at(s, n, j);
                        lemma_table_entry(s, j);
                    }
                }
                None
            },
        }
    }

    /// Attaches a test result to the pull request whose merge commit is `oid`.
    fn add_build_result(&mut self, oid: &str, name: &str, url: &str, conclusion: Conclusion)
        requires
            old(self).wf(),
        ensures
            final(self).wf(),
            final(self)@ == (State {
                pulls: with_build_result(
                    old(self)@.pulls,
                    oid@,
                    BuildResultView { check_name: name@, url: url@, conclusion },
                ),
                head: old(self)@.head,
            }),
            final(self).github == old(self).github,
            final(self).same_setting(old(self)),
    {
        proof {
            lemma_build_result_keeps_inv(
                old(self)@,
                oid@,
                BuildResultView { check_name: name@, url: url@, conclusion },
            );
        }
        match self.pull_from_merge_oid(oid) {
            Some(pr) => {
                pr.add_build_result(name, url, conclusion);
            },
            None => {},
        }
        proof {
            let before = old(self).pulls.entries@;
            match holder(old(self)@.pulls, oid@) {
                Some(n) => {
                    let i = place_of(before, n);
                    let after = self.pulls.entries@[i];
                    assert(after.number == before[i].number) by {
                        assert(after@.number == before[i]@.number);
                    }
                    lemma_table_entry(before, i);
                    lemma_table_update(before, i, after);
                },
                None => {},
            }
        }
    }

    /// Takes the result of a finished check run into the table.
    pub fn handle_check_run_event(&mut self, event: &CheckRunEvent)
        requires
            old(self).wf(),
        ensures
            final(self).wf(),
            final(self)@ == (State {
                pulls: check_run_event(old(self)@.pulls, event),
                head: old(self)@.head,
            }),
            final(self).github == old(self).github,
            final(self).same_setting(old(self)),
    {
        let conclusion = match (event.action, event.check_run.status, event.check_run.conclusion) {
            (CheckRunEventAction::Completed, CheckStatus::Completed, Some(conclusion)) => conclusion,
            _ => {
                return ;
            },
        };
        self.add_build_result(
            event.check_run.head_sha.as_str(),
            event.check_run.name.as_str(),
            event.check_run.details_url.as_str(),
            conclusion,
        );
    }

    /// Takes a commit status that is no longer pending into the table.
    pub fn handle_status_event(&mut self, event: &StatusEvent)
        requires
            old(self).wf(),
        ensures
            final(self).wf(),
            final(self)@ == (State {
                pulls: status_event(old(self)@.pulls, event),
                head: old(self)@.head,
            }),
            final(self).github == old(self).github,
            final(self).same_setting(old(self)),
    {
        let conclusion = match event.state {
            StatusEventState::Pending => {
                return ;
            },
            StatusEventState::Success => Conclusion::Success,
            StatusEventState::Failure => Conclusion::Failure,
            StatusEventState::Error => Conclusion::Failure,
        };
        let url = match &event.target_url {
            Some(u) => u.as_str(),
            None => "",
        };
        proof {
            reveal_strlit("");
            assert(""@ =~= Seq::<char>::empty());
        }
        self.add_build_result(event.sha.as_str(), event.context.as_str(), url, conclusion);
    }
}


impl EventProcessor {
    /// Whether the event processor, having been `before`, has gone where
    /// `r` leads and has handed out with `out` every call recorded.
    pub open spec fn follows(&self, before: &Self, out: &Outcome, r: Progress) -> bool {
        &&& self.wf()
        &&& self@ == r.state
        &&& out.calls() == before.github@ + r.calls
        &&& out.next@ == r.next
        &&& self.github@ == Seq::<ActionView>::empty()
        &&& self.config == before.config
        &&& self.git_repository == before.git_repository
    }

    /// Hands out the calls recorded, together with the next step.
    fn finish(&mut self, next: Step) -> (out: Outcome)
        ensures
            out.calls() == old(self).github@,
            out.next == next,
            final(self).github@ == Seq::<ActionView>::empty(),
            final(self).pulls == old(self).pulls,
            final(self).merge_queue == old(self).merge_queue,
            final(self).same_setting(old(self)),
    {
        let actions = self.github.take();
        Outcome { actions, next }
    }

    /// Evaluates the merge queue once, at the instant `now`.
    pub fn process_merge_queue(&mut self, now: u64) -> (out: Outcome)
        requires
            old(self).wf(),
        ensures
            final(self).follows(old(self), &out, tick(old(self)@, &old(self).config, now)),
            final(self).project_board == old(self).project_board,
    {
        proof {
            lemma_tick_keeps_inv(self@, &self.config, now);
        }
        let next = self.merge_queue.process_queue(
            &self.config,
            &mut self.github,
            &mut self.pulls,
            now,
        );
        self.finish(next)
    }

    /// The context in which `sender` gives a command on pull request
    /// `pr_number`. What the command does to the pull request and which
    /// calls it records come back to the event processor.
    pub fn command_context<'a>(&'a mut self, sender: &'a str, pr_number: u64) -> (r:
        CommandContext<'a>)
        requires
            old(self).wf(),
        ensures
            r.number == pr_number,
            r.sender == sender,
            *r.config == old(self).config,
            r.project_board is Some == old(self).project_board is Some,
            r.project_board matches Some(b) ==> *b == old(self).project_board->0,
            r.pull() == lookup(old(self)@.pulls, pr_number),
            match r.pull_request {
                Some(p) => {
                    let i = place_of(old(self).pulls.entries@, pr_number);
                    &&& at(old(self).pulls.entries@, pr_number, i)
                    &&& final(self).pulls.entries@ == old(self).pulls.entries@.update(
                        i,
                        mut_ref_future(p),
                    )
                },
                None => final(self).pulls == old(self).pulls,
            },
            mut_ref_current(r.github) == old(self).github,
            mut_ref_future(r.github) == final(self).github,
            mut_ref_current(r.repo) == old(self).git_repository,
            mut_ref_future(r.repo) == final(self).git_repository,
            final(self).config == old(self).config,
            final(self).merge_queue == old(self).merge_queue,
            final(self).project_board == old(self).project_board,
    {
        let place = self.pulls.position(pr_number);
        proof {
            match place {
                Some(i) => {
                    lemma_table_entry(self.pulls.entries@, i as int);
                },
                None => {},
            }
        }
        CommandContext {
            number: pr_number,
            pull_request: match place {
                Some(i) => Some(&mut self.pulls.entries[i]),
                None => None,
            },
            github: &mut self.github,
            config: &self.config,
            repo: &mut self.git_repository,
            project_board: match &self.project_board {
                Some(b) => Some(b),
                None => None,
            },
            sender,
        }
    }

    /// Looks at a comment: its text goes to the parser.
    fn comment_step(
        &mut self,
        sender: &str,
        number: u64,
        body: Option<&str>,
        node_id: &str,
        now: u64,
    ) -> (out: Outcome)
        requires
            old(self).wf(),
        ensures
            final(self).follows(
                old(self),
                &out,
                comment_step(
                    old(self)@,
                    &old(self).config,
                    sender@,
                    number,
                    match body {
                        Some(b) => Some(b@),
                        None => None,
                    },
                    node_id@,
                    now,
                ),
            ),
            final(self).project_board == old(self).project_board,
    {
        match body {
            Some(b) => {
                assert(self.github@ =~= old(self).github@ + Seq::<ActionView>::empty());
                self.finish(
                    Step::Parse {
                        sender: String::from_str(sender),
                        number,
                        body: String::from_str(b),
                        node_id: String::from_str(node_id),
                    },
                )
            },
            None => {
                let out = self.process_merge_queue(now);
                proof {
                    let r = tick(old(self)@, &old(self).config, now);
                    assert(old(self).github@ + r.calls =~= old(self).github@ + (Seq::<
                        ActionView,
                    >::empty() + r.calls));
                }
                out
            },
        }
    }

    /// What follows once the approval of a reviewed pull request is settled.
    fn after_review(&mut self, e: &PullRequestReviewEvent, now: u64) -> (out: Outcome)
        requires
            old(self).wf(),
        ensures
            final(self).follows(
                old(self),
                &out,
                after_review(old(self)@, &old(self).config, e, now),
            ),
            final(self).project_board == old(self).project_board,
    {
        if e.action.is_submitted() {
            self.comment_step(
                e.sender.as_str(),
                e.number,
                e.review.body(),
                e.review.node_id.as_str(),
                now,
            )
        } else {
            let out = self.process_merge_queue(now);
            proof {
                let r = tick(old(self)@, &old(self).config, now);
                assert(old(self).github@ + r.calls =~= old(self).github@ + (Seq::<
                    ActionView,
                >::empty() + r.calls));
            }
            out
        }
    }

    /// Takes a review: the forge is to be asked what the reviews add up to.
    pub fn handle_pull_request_review_event(
        &mut self,
        e: &PullRequestReviewEvent,
        now: u64,
    ) -> (out:
        Outcome)
        requires
            old(self).wf(),
        ensures
            final(self).follows(
                old(self),
                &out,
                review_event(old(self)@, &old(self).config, e, now),
            ),
            final(self).project_board == old(self).project_board,
    {
        if self.pulls.contains(e.number) {
            assert(self.github@ =~= old(self).github@ + Seq::<ActionView>::empty());
            self.finish(Step::ReviewDecision { number: e.number, delay_ms: 0, retried: false })
        } else {
            self.after_review(e, now)
        }
    }

    /// Takes the forge's answer to the question whether the pull request
    /// of the review `e` is approved; `retried` says that the question was
    /// asked a second time.
    pub fn review_decision(
        &mut self,
        e: &PullRequestReviewEvent,
        answer: bool,
        retried: bool,
        now: u64,
    ) -> (out: Outcome)
        requires
            old(self).wf(),
        ensures
            final(self).follows(
                old(self),
                &out,
                review_decision(old(self)@, &old(self).config, e, answer, retried, now),
            ),
            final(self).project_board == old(self).project_board,
    {
        match self.pulls.position(e.number) {
            None => self.after_review(e, now),
            Some(i) => {
                let cached = self.pulls.entries[i].approved;
                let stale = match (cached, answer, e.review.state) {
                    (true, true, ReviewState::Dismissed) => true,
                    (true, true, ReviewState::ChangesRequested) => true,
                    (false, false, ReviewState::Approved) => true,
                    _ => false,
                };
                if !retried && stale {
                    assert(self.github@ =~= old(self).github@ + Seq::<ActionView>::empty());
                    self.finish(
                        Step::ReviewDecision {
                            number: e.number,
                            delay_ms: REVIEW_RETRY_DELAY_MS,
                            retried: true,
                        },
                    )
                } else {
                    self.pulls.entries[i].approved = answer;
                    proof {
                        let before = old(self).pulls.entries@;
                        lemma_table_update(before, i as int, self.pulls.entries@[i as int]);
                        assert(self.pulls.entries@ =~= before.update(
                            i as int,
                            self.pulls.entries@[i as int],
                        ));
                        lemma_tame_update(
                            old(self)@,
                            e.number,
                            PullView { approved: answer, ..old(self)@.pulls[e.number] },
                        );
                    }
                    self.after_review(e, now)
                }
            },
        }
    }

    /// Takes what the parser made of a comment by `user` on pull request
    /// `pr_number`.
    pub fn process_comment(
        &mut self,
        user: &str,
        pr_number: u64,
        parsed: ParsedComment,
        node_id: &str,
        now: u64,
    ) -> (out: Outcome)
        requires
            old(self).wf(),
        ensures
            final(self).follows(
                old(self),
                &out,
                commented(old(self)@, &old(self).config, user@, pr_number, parsed, node_id@, now),
            ),
            final(self).project_board == old(self).project_board,
    {
        match parsed {
            ParsedComment::NoCommand => {
                let out = self.process_merge_queue(now);
                proof {
                    let r = tick(old(self)@, &old(self).config, now);
                    assert(old(self).github@ + r.calls =~= old(self).github@ + (Seq::<
                        ActionView,
                    >::empty() + r.calls));
                }
                out
            },
            ParsedComment::Invalid => {
                self.github.create_comment(pr_number, text::invalid_command());
                let out = self.process_merge_queue(now);
                proof {
                    let r = tick(old(self)@, &old(self).config, now);
                    let c = seq![
                        ActionView::CreateComment {
                            number: pr_number,
                            body: text::invalid_command_text(),
                        },
                    ];
                    assert(old(self).github@.push(c[0]) + r.calls =~= old(self).github@ + (c
                        + r.calls));
                }
                out
            },
            ParsedComment::Valid(command) => {
                self.github.add_reaction(node_id, ReactionType::Rocket);
                proof {
                    let c = seq![
                        ActionView::AddReaction { node_id: node_id@, kind: ReactionType::Rocket },
                    ];
                    assert(old(self).github@.push(c[0]) =~= old(self).github@ + c);
                }
                self.finish(
                    Step::Authorize { sender: String::from_str(user), number: pr_number, command },
                )
            },
        }
    }

    /// Carries out the command that `user` gave on pull request
    /// `pr_number`, if `authorized` says that the user may give it.
    pub fn run_command(
        &mut self,
        user: &str,
        pr_number: u64,
        command: Command,
        authorized: bool,
        now: u64,
    ) -> (out: Outcome)
        requires
            old(self).wf(),
        ensures
            final(self).follows(
                old(self),
                &out,
                commanded(
                    old(self)@,
                    &old(self).config,
                    user@,
                    pr_number,
                    command,
                    authorized,
                    now,
                ),
            ),
            final(self).project_board == old(self).project_board,
    {
        if !authorized {
            let out = self.process_merge_queue(now);
            proof {
                let r = tick(old(self)@, &old(self).config, now);
                assert(old(self).github@ + r.calls =~= old(self).github@ + (Seq::<
                    ActionView,
                >::empty() + r.calls));
            }
            return out;
        }
        let ghost before = old(self).pulls.entries@;
        let ghost found = lookup(old(self)@.pulls, pr_number);
        let mut ctx = self.command_context(user, pr_number);
        let canary = command.execute(&mut ctx, now);
        proof {
            let calls = command.calls(pr_number, found, user@, &old(self).config);
            assert(self.github@ == old(self).github@ + calls);
            match found {
                Some(p) => {
                    let i = place_of(before, pr_number);
                    let after = self.pulls.entries@[i];
                    assert(after@ == command.effect(p, &old(self).config, now));
                    lemma_table_entry(before, i);
                    lemma_table_keyed(before);
                    assert(after.number == before[i].number) by {
                        assert(after@.number == before[i]@.number);
                    }
                    lemma_table_update(before, i, after);
                    lemma_command_keeps_inv(old(self)@, &old(self).config, pr_number, command, now);
                },
                None => {},
            }
        }
        if canary {
            match self.pulls.get(pr_number) {
                Some(p) => {
                    let next = prepare(p, true);
                    self.finish(next)
                },
                None => self.finish(Step::Done),
            }
        } else {
            let ghost mid = self.github@;
            let ghost state = self@;
            let out = self.process_merge_queue(now);
            proof {
                let calls = command.calls(pr_number, found, user@, &old(self).config);
                let r = tick(state, &old(self).config, now);
                assert(mid + r.calls =~= old(self).github@ + (calls + r.calls));
            }
            out
        }
    }

    /// Takes the working copy's answer to the making of a merge commit for
    /// pull request `number`: the commit that was pushed, or none if the
    /// merge failed. `canary` says that the commit is for a test only.
    pub fn prepared(
        &mut self,
        number: u64,
        canary: bool,
        merge_oid: Option<String>,
        now: u64,
    ) -> (out:
        Outcome)
        requires
            old(self).wf(),
        ensures
            final(self).follows(
                old(self),
                &out,
                if canary {
                    canary_prepared(
                        old(self)@,
                        &old(self).config,
                        number,
                        option_text(merge_oid),
                        now,
                    )
                } else {
                    prepared(old(self)@, &old(self).config, number, option_text(merge_oid), now)
                },
            ),
            final(self).project_board == old(self).project_board,
    {
        if !canary {
            proof {
                lemma_prepared_keeps_inv(
                    self@,
                    &self.config,
                    number,
                    option_text(merge_oid),
                    now,
                );
            }
            let next = self.merge_queue.prepared(
                &self.config,
                &mut self.github,
                &mut self.pulls,
                number,
                merge_oid,
                now,
            );
            return self.finish(next);
        }
        let place = match self.pulls.position(number) {
            Some(i) => match &self.pulls.entries[i].status {
                Status::InReview => Some(i),
                _ => None,
            },
            None => None,
        };
        match place {
            Some(i) => {
                if is_usable(&self.pulls, &merge_oid) {
                    match merge_oid {
                        Some(oid) => {
                            self.github.create_comment(number, text::testing(oid.as_str()));
                            let ghost before = self.pulls.entries@;
                            self.pulls.entries[i].status = Status::Canary {
                                merge_oid: oid,
                                results: Vec::new(),
                            };
                            proof {
                                lemma_table_update(before, i as int, self.pulls.entries@[i as int]);
                                assert(self.pulls.entries@ =~= before.update(
                                    i as int,
                                    self.pulls.entries@[i as int],
                                ));
                                assert(results_of(Seq::<BuildResult>::empty()) =~= Map::empty());
                                lemma_canary_keeps_inv(old(self)@, number, oid@);
                            }
                        },
                        None => {},
                    }
                } else {
                    let body = text::conflict(self.pulls.entries[i].author.as_str());
                    self.github.create_comment(number, body);
                }
            },
            None => {},
        }
        let ghost mid = self.github@;
        let ghost state = self@;
        let out = self.process_merge_queue(now);
        proof {
            let r = tick(state, &old(self).config, now);
            let m = canary_prepared(
                old(self)@,
                &old(self).config,
                number,
                option_text(merge_oid),
                now,
            );
            assert(mid + r.calls =~= old(self).github@ + m.calls);
        }
        out
    }

    /// Takes the forge's answer to the merge of pull request `number`:
    /// `error` is what went wrong, if anything did.
    pub fn landed(&mut self, number: u64, error: Option<&str>) -> (out: Outcome)
        requires
            old(self).wf(),
        ensures
            final(self).follows(
                old(self),
                &out,
                landed(
                    old(self)@,
                    &old(self).config,
                    number,
                    match error {
                        Some(e) => Some(e@),
                        None => None,
                    },
                ),
            ),
            final(self).project_board == old(self).project_board,
    {
        proof {
            lemma_landed_keeps_inv(
                self@,
                &self.config,
                number,
                match error {
                    Some(e) => Some(e@),
                    None => None,
                },
            );
        }
        let next = self.merge_queue.landed(
            &self.config,
            &mut self.github,
            &mut self.pulls,
            number,
            error,
        );
        self.finish(next)
    }

    /// Takes a webhook event.
    pub fn handle_webhook(&mut self, event: &Event, now: u64) -> (out: Outcome)
        requires
            old(self).wf(),
        ensures
            final(self).follows(
                old(self),
                &out,
                webhook(old(self)@, &old(self).config, old(self).project_board, event, now),
            ),
            final(self).project_board == old(self).project_board,
    {
        let from_here = match event.repository() {
            Some(r) => r.matches(self.config.repo()),
            None => false,
        };
        if !from_here {
            assert(self.github@ =~= old(self).github@ + Seq::<ActionView>::empty());
            return self.finish(Step::Done);
        }
        match event {
            Event::PullRequest(e) => {
                self.handle_pull_request_event(e);
                let ghost mid = self.github@;
                let ghost state = self@;
                let out = self.process_merge_queue(now);
                proof {
                    let c = pull_request_event(
                        old(self)@.pulls,
                        &old(self).config,
                        old(self).project_board,
                        e,
                    );
                    let r = tick(state, &old(self).config, now);
                    assert(mid + r.calls =~= old(self).github@ + (c.calls + r.calls));
                }
                out
            },
            Event::CheckRun(e) => {
                self.handle_check_run_event(e);
                let ghost state = self@;
                let out = self.process_merge_queue(now);
                proof {
                    let r = tick(state, &old(self).config, now);
                    assert(old(self).github@ + r.calls =~= old(self).github@ + (Seq::<
                        ActionView,
                    >::empty() + r.calls));
                }
                out
            },
            Event::Status(e) => {
                self.handle_status_event(e);
                let ghost state = self@;
                let out = self.process_merge_queue(now);
                proof {
                    let r = tick(state, &old(self).config, now);
                    assert(old(self).github@ + r.calls =~= old(self).github@ + (Seq::<
                        ActionView,
                    >::empty() + r.calls));
                }
                out
            },
            Event::IssueComment(e) => {
                if e.action.is_created() && e.issue.is_pull_request() {
                    self.comment_step(
                        e.sender.as_str(),
                        e.issue.number,
                        e.comment.body(),
                        e.comment.node_id.as_str(),
                        now,
                    )
                } else {
                    self.idle_tick(now)
                }
            },
            Event::PullRequestReview(e) => self.handle_pull_request_review_event(e, now),
            Event::PullRequestReviewComment(e) => {
                if e.action.is_created() {
                    self.comment_step(
                        e.sender.as_str(),
                        e.number,
                        e.comment.body(),
                        e.comment.node_id.as_str(),
                        now,
                    )
                } else {
                    self.idle_tick(now)
                }
            },
            Event::Unsupported { .. } => self.idle_tick(now),
        }
    }

    /// Evaluates the queue for an event that changed nothing.
    fn idle_tick(&mut self, now: u64) -> (out: Outcome)
        requires
            old(self).wf(),
        ensures
            final(self).follows(
                old(self),
                &out,
                then_tick(old(self)@.pulls, old(self)@.head, Seq::empty(), &old(self).config, now),
            ),
            final(self).project_board == old(self).project_board,
    {
        let out = self.process_merge_queue(now);
        proof {
            let r = tick(old(self)@, &old(self).config, now);
            assert(old(self).github@ + r.calls =~= old(self).github@ + (Seq::<ActionView>::empty()
                + r.calls));
        }
        out
    }

    /// A copy of the queue and of the table.
    pub fn get_state(&self) -> (r: (MergeQueue, PullTable))
        requires
            self.wf(),
        ensures
            r.0.head == self.merge_queue.head,
            r.1.wf(),
            r.1@ == self.pulls@,
    {
        (MergeQueue { head: self.merge_queue.head }, self.pulls.duplicate())
    }

    /// Takes one request from the inbox.
    pub fn handle_request(&mut self, request: &Request, now: u64) -> (out: Outcome)
        requires
            old(self).wf(),
        ensures
            final(self).follows(
                old(self),
                &out,
                requested(old(self)@, &old(self).config, old(self).project_board, request, now),
            ),
            final(self).project_board == old(self).project_board,
    {
        match request {
            Request::Webhook { event, .. } => self.handle_webhook(event, now),
            Request::GetState => {
                let state = self.get_state();
                assert(self.github@ =~= old(self).github@ + Seq::<ActionView>::empty());
                self.finish(Step::Snapshot { head: state.0.head, pulls: state.1 })
            },
            Request::Synchronize => {
                assert(self.github@ =~= old(self).github@ + Seq::<ActionView>::empty());
                self.finish(Step::Synchronize)
            },
        }
    }

    /// Asks for the label `name` to be created unless it is known to exist.
    fn ensure_label(&mut self, known: &mut Vec<String>, name: &str)
        ensures
            final(self).github@ == old(self).github@ + created(label_set(old(known)@), name@),
            label_set(final(known)@) == label_set(old(known)@).insert(name@),
            final(self).pulls == old(self).pulls,
            final(self).merge_queue == old(self).merge_queue,
            final(self).same_setting(old(self)),
    {
        if !has_label(known, name) {
            self.github.create_label(name, "D0D8D8");
            assert(self.github@ =~= old(self).github@ + created(label_set(old(known)@), name@));
        } else {
            assert(self.github@ =~= old(self).github@ + created(label_set(old(known)@), name@));
        }
        insert_label(known, name);
    }

    /// Rebuilds the state from what the forge answered: `pulls` are the
    /// open pull requests, `existing` those of the three labels that the
    /// repository has, and `board` is the project board, if one was set up.
    pub fn synchronize(
        &mut self,
        pulls: &Vec<PullRequest>,
        existing: &Vec<String>,
        board: Option<ProjectBoard>,
        now: u64,
    ) -> (out: Outcome)
        ensures
            final(self).follows(
                old(self),
                &out,
                synchronized(&old(self).config, pulls@, label_set(existing@), now),
            ),
            final(self).project_board == board,
    {
        self.pulls.clear();
        let mut i: usize = 0;
        while i < pulls.len()
            invariant
                i <= pulls.len(),
                self.pulls.wf(),
                self.pulls@ == listed(pulls@.take(i as int), &self.config.labels),
                self.github == old(self).github,
                self.merge_queue == old(self).merge_queue,
                self.same_setting(old(self)),
            decreases pulls.len() - i,
        {
            let state = PullRequestState::from_pull_request(&pulls[i], self.config.labels());
            proof {
                let t = pulls@.take(i + 1);
                assert(t.drop_last() =~= pulls@.take(i as int));
                assert(t.last() == pulls@[i as int]);
            }
            self.pulls.insert(state);
            i = i + 1;
        }
        assert(pulls@.take(pulls@.len() as int) =~= pulls@);
        self.merge_queue.reset();
        self.project_board = board;
        let mut known = copy_labels(existing);
        let ghost names = self.config.labels;
        let squash = String::from_str(self.config.labels().squash());
        let high = String::from_str(self.config.labels().high_priority());
        let low = String::from_str(self.config.labels().low_priority());
        self.ensure_label(&mut known, squash.as_str());
        self.ensure_label(&mut known, high.as_str());
        self.ensure_label(&mut known, low.as_str());
        proof {
            lemma_listed_keeps_inv(pulls@, &self.config.labels);
            assert(self.github@ =~= old(self).github@ + missing_labels(
                &names,
                label_set(existing@),
            ));
        }
        let ghost mid = self.github@;
        let ghost state = self@;
        let out = self.process_merge_queue(now);
        proof {
            let r = tick(state, &old(self).config, now);
            let m = missing_labels(&names, label_set(existing@));
            assert(mid + r.calls =~= old(self).github@ + (m + r.calls));
        }
        out
    }
}


/// Whether the record at place `i` is in order by itself: queued at its own
/// priority, with a merge commit that is not empty, and under test only if
/// the queue refers to it.
pub open spec fn entry_in_order(p: PullView, head: Option<InFlight>) -> bool {
    &&& p.status is Queued ==> p.status->Queued_priority == p.priority
    &&& p.status.merge_oid() is Some ==> p.status.merge_oid()->0.len() > 0
    &&& p.status is Testing ==> head is Some && head->0.number == p.number
}

impl EventProcessor {
    fn entry_is_in_order(&self, i: usize) -> (r: bool)
        requires
            i < self.pulls.entries@.len(),
        ensures
            r == entry_in_order(self.pulls.entries@[i as int]@, self.merge_queue.head),
    {
        let p = &self.pulls.entries[i];
        match &p.status {
            Status::InReview => true,
            Status::Queued { priority, .. } => *priority == p.priority,
            Status::Canary { merge_oid, .. } => !merge_oid.as_str().is_empty(),
            Status::Testing { merge_oid, .. } => {
                !merge_oid.as_str().is_empty() && match self.merge_queue.head {
                    Some(f) => f.number == p.number,
                    None => false,
                }
            },
        }
    }

    /// Whether the records at places `i` and `j` have one merge commit.
    fn share_merge_commit(&self, i: usize, j: usize) -> (r: bool)
        requires
            i < self.pulls.entries@.len(),
            j < self.pulls.entries@.len(),
        ensures
            r == (self.pulls.entries@[i as int]@.status.merge_oid() is Some
                && self.pulls.entries@[i as int]@.status.merge_oid()
                == self.pulls.entries@[j as int]@.status.merge_oid()),
    {
        let a = match &self.pulls.entries[i].status {
            Status::Testing { merge_oid, .. } => Some(merge_oid),
            Status::Canary { merge_oid, .. } => Some(merge_oid),
            _ => None,
        };
        let b = match &self.pulls.entries[j].status {
            Status::Testing { merge_oid, .. } => Some(merge_oid),
            Status::Canary { merge_oid, .. } => Some(merge_oid),
            _ => None,
        };
        match (a, b) {
            (Some(x), Some(y)) => *x == *y,
            _ => false,
        }
    }

    /// Whether the event processor is well formed. It is after every call
    /// of its own; the test is for a state that was put together by hand.
    pub fn is_wf(&self) -> (r: bool)
        ensures
            r == self.wf(),
    {
        if !self.pulls.is_wf() {
            return false;
        }
        let ghost s = self.pulls.entries@;
        let ghost head = self.merge_queue.head;
        proof {
            lemma_table_keyed(s);
        }
        let mut i: usize = 0;
        while i < self.pulls.entries.len()
            invariant
                i <= self.pulls.entries.len(),
                s == self.pulls.entries@,
                head == self.merge_queue.head,
                self.pulls.wf(),
                forall|k: int| 0 <= k < i ==> entry_in_order(#[trigger] s[k]@, head),
                forall|a: int, b: int|
                    0 <= a < i && 0 <= b < i && a != b && (#[trigger] s[a])@.status.merge_oid() is Some
                        ==> s[a]@.status.merge_oid() != (#[trigger] s[b])@.status.merge_oid(),
            decreases self.pulls.entries.len() - i,
        {
            if !self.entry_is_in_order(i) {
                proof {
                    lemma_table_entry(s, i as int);
                    let n = s[i as int].number;
                    assert(self@.pulls[n] == s[i as int]@);
                    if self@.inv() {
                        assert(self@.pulls.contains_key(n));
                        if self@.pulls[n].status is Testing {
                            assert(self@.testing(n));
                        }
                        assert(entry_in_order(self@.pulls[n], head));
                    }
                }
                return false;
            }
            let mut j: usize = 0;
            while j < i
                invariant
                    j <= i,
                    i < self.pulls.entries.len(),
                    s == self.pulls.entries@,
                    self.pulls.wf(),
                    forall|b: int|
                        0 <= b < j && (#[trigger] s[b])@.status.merge_oid() is Some
                            ==> s[b]@.status.merge_oid() != s[i as int]@.status.merge_oid(),
                decreases i - j,
            {
                if self.share_merge_commit(j, i) {
                    proof {
                        lemma_table_entry(s, i as int);
                        lemma_table_entry(s, j as int);
                        let n = s[j as int].number;
                        let m = s[i as int].number;
                        assert(n != m);
                        assert(self@.pulls[n] == s[j as int]@);
                        assert(self@.pulls[m] == s[i as int]@);
                        assert(!self@.inv());
                    }
                    return false;
                }
                j = j + 1;
            }
            i = i + 1;
        }
        proof {
            let t = self@;
            assert forall|n: u64| t.pulls.contains_key(n) implies entry_in_order(
                #[trigger] t.pulls[n],
                head,
            ) by {
                let k = choose|k: int| at(s, n, k);
                lemma_table_entry(s, k);
            }
            assert forall|n: u64| t.testing(n) implies t.head is Some && t.head->0.number == n by {
                assert(entry_in_order(t.pulls[n], head));
            }
            assert forall|n: u64, m: u64|
                t.pulls.contains_key(n) && t.pulls.contains_key(m) && n != m && (
                #[trigger] t.pulls[n]).status.merge_oid() is Some implies t.pulls[n].status.merge_oid()
                != (#[trigger] t.pulls[m]).status.merge_oid() by {
                let a = choose|a: int| at(s, n, a);
                let b = choose|b: int| at(s, m, b);
                lemma_table_entry(s, a);
                lemma_table_entry(s, b);
                if t.pulls[m].status.merge_oid() is Some {
                    assert(s[b]@.status.merge_oid() != s[a]@.status.merge_oid());
                }
            }
            assert forall|n: u64|
                t.pulls.contains_key(n) && (#[trigger] t.pulls[n]).status.merge_oid() is Some implies t.pulls[n].status.merge_oid()->0.len()
                > 0 by {
                assert(entry_in_order(t.pulls[n], head));
            }
            assert forall|n: u64|
                t.pulls.contains_key(n) && (#[trigger] t.pulls[n]).status is Queued implies t.pulls[n].status->Queued_priority
                == t.pulls[n].priority by {
                assert(entry_in_order(t.pulls[n], head));
            }
        }
        true
    }
}

} // verus!
