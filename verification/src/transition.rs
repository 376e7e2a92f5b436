//! What each request and each answer from outside leads to: the transitions
//! of the event processor, as functions of its state.

use crate::command::{Command, ParsedComment};
use crate::config::{Labels, RepoConfig};
use crate::event::{
    CheckRunEvent, CheckRunEventAction, CheckStatus, CommentAction, Event, PullRequest,
    PullRequestEvent, PullRequestEventAction, PullRequestReviewEvent, ReviewAction, ReviewState,
    StatusEvent, StatusEventState,
};
use crate::forge::{card_created, card_deleted, ActionView, ProjectBoard, ReactionType};
use crate::model::{Progress, State};
use crate::queue::{prepare_step, tick, usable, InFlight};
use crate::state::{BuildResultView, Conclusion, PullView, StatusView};
use crate::step::StepView;
use crate::text;
use vstd::prelude::*;

verus! {

/// The colour of a label that the bot creates.
pub open spec fn label_color() -> Seq<char> {
    "D0D8D8"@
}

/// Milliseconds to wait before the forge is asked a second time for a
/// review decision.
pub const REVIEW_RETRY_DELAY_MS: u64 = 300;

/// A change of the table together with the calls that go with it.
pub struct Change {
    pub pulls: Map<u64, PullView>,
    pub calls: Seq<ActionView>,
}

/// Whether the event comes from the repository that `config` is for.
pub open spec fn ours(e: &Event, config: &RepoConfig) -> bool {
    e.source() matches Some(r) && r.owner@ == config.repo.owner@ && r.name@ == config.repo.name@
}

/// Whether the head of `p` lies in the repository that `config` is for.
pub open spec fn from_base_repo(p: PullView, config: &RepoConfig) -> bool {
    p.head_repo matches Some(r) && r.0 == config.repo.owner@ && r.1 == config.repo.name@
}

/// The table after `pull` was opened or reopened: a fresh record stands
/// under its number. The author is asked to allow edits from maintainers
/// where the repository needs them and a fork does not grant them.
pub open spec fn opened(
    pulls: Map<u64, PullView>,
    config: &RepoConfig,
    board: Option<ProjectBoard>,
    pull: &PullRequest,
) -> Change {
    let p = PullView::fresh(pull, &config.labels);
    let advice = if config.maintainer_mode && !p.maintainer_can_modify && !from_base_repo(
        p,
        config,
    ) {
        seq![ActionView::CreateComment { number: p.number, body: text::maintainer_edits_text() }]
    } else {
        Seq::empty()
    };
    Change { pulls: pulls.insert(p.number, p), calls: advice + card_created(board, p.number) }
}

/// The record `p` after its title, body or base were edited as `pull` shows.
pub open spec fn edited(p: PullView, pull: &PullRequest, names: &Labels) -> PullView {
    let q = (PullView {
        title: pull.title@,
        body: match pull.body {
            Some(b) => b@,
            None => Seq::empty(),
        },
        ..p
    }).with_base(pull.base.git_ref@, pull.base.sha@, names);
    PullView {
        maintainer_can_modify: match pull.maintainer_can_modify {
            Some(b) => b,
            None => q.maintainer_can_modify,
        },
        ..q
    }
}

/// The record `p` after the event `e` about it, and the calls that go with it.
pub open spec fn touched(p: PullView, config: &RepoConfig, e: &PullRequestEvent) -> (
    PullView,
    Seq<ActionView>,
) {
    let names = &config.labels;
    match e.action {
        PullRequestEventAction::Synchronize => (
            p.with_head(e.pull_request.head.sha@, names),
            if p.head_demotes() {
                p.demote_calls(names)
            } else {
                Seq::empty()
            },
        ),
        PullRequestEventAction::Labeled => match e.label {
            Some(l) => (p.labeled(l@, names), Seq::empty()),
            None => (p, Seq::empty()),
        },
        PullRequestEventAction::Unlabeled => match e.label {
            Some(l) => (p.unlabeled(l@, names), Seq::empty()),
            None => (p, Seq::empty()),
        },
        PullRequestEventAction::ConvertedToDraft => (PullView { is_draft: true, ..p }, Seq::empty()),
        PullRequestEventAction::ReadyForReview => (PullView { is_draft: false, ..p }, Seq::empty()),
        PullRequestEventAction::Edited => (
            edited(p, &e.pull_request, names),
            if p.base_demotes(e.pull_request.base.git_ref@) {
                p.demote_calls(names)
            } else {
                Seq::empty()
            },
        ),
        _ => (p, Seq::empty()),
    }
}

/// The table after a pull request event. Opening puts a fresh record into
/// the table; closing takes the record out and tells the board, also of a
/// pull request that left the table when it was merged; every other event
/// changes the record of a pull request that is in the table and is
/// ignored otherwise.
pub open spec fn pull_request_event(
    pulls: Map<u64, PullView>,
    config: &RepoConfig,
    board: Option<ProjectBoard>,
    e: &PullRequestEvent,
) -> Change {
    let n = e.pull_request.number;
    match e.action {
        PullRequestEventAction::Opened => opened(pulls, config, board, &e.pull_request),
        PullRequestEventAction::Reopened => opened(pulls, config, board, &e.pull_request),
        PullRequestEventAction::Closed => Change {
            pulls: pulls.remove(n),
            calls: card_deleted(board, n),
        },
        _ => if pulls.contains_key(n) {
            let t = touched(pulls[n], config, e);
            Change { pulls: pulls.insert(n, t.0), calls: t.1 }
        } else {
            Change { pulls, calls: Seq::empty() }
        },
    }
}

/// The pull request whose merge commit is `oid`.
pub open spec fn holder(pulls: Map<u64, PullView>, oid: Seq<char>) -> Option<u64> {
    if exists|n: u64| pulls.contains_key(n) && (#[trigger] pulls[n]).status.merge_oid() == Some(oid) {
        Some(
            choose|n: u64|
                pulls.contains_key(n) && (#[trigger] pulls[n]).status.merge_oid() == Some(oid),
        )
    } else {
        None
    }
}

/// The table after the result `r` came in for the merge commit `oid`.
pub open spec fn with_build_result(
    pulls: Map<u64, PullView>,
    oid: Seq<char>,
    r: BuildResultView,
) -> Map<u64, PullView> {
    match holder(pulls, oid) {
        Some(n) => pulls.insert(n, pulls[n].with_result(r)),
        None => pulls,
    }
}

/// The result that a check run event reports, if the run is over.
pub open spec fn check_run_result(e: &CheckRunEvent) -> Option<BuildResultView> {
    if e.action == CheckRunEventAction::Completed && e.check_run.status == CheckStatus::Completed
        && e.check_run.conclusion is Some {
        Some(
            BuildResultView {
                check_name: e.check_run.name@,
                url: e.check_run.details_url@,
                conclusion: e.check_run.conclusion->0,
            },
        )
    } else {
        None
    }
}

pub open spec fn check_run_event(pulls: Map<u64, PullView>, e: &CheckRunEvent) -> Map<u64, PullView> {
    match check_run_result(e) {
        Some(r) => with_build_result(pulls, e.check_run.head_sha@, r),
        None => pulls,
    }
}

/// The result that a commit status reports: success as success, failure
/// and error as failure, and none while it is pending.
pub open spec fn status_result(e: &StatusEvent) -> Option<BuildResultView> {
    let url = match e.target_url {
        Some(u) => u@,
        None => Seq::empty(),
    };
    match e.state {
        StatusEventState::Pending => None,
        StatusEventState::Success => Some(
            BuildResultView { check_name: e.context@, url, conclusion: Conclusion::Success },
        ),
        _ => Some(BuildResultView { check_name: e.context@, url, conclusion: Conclusion::Failure }),
    }
}

pub open spec fn status_event(pulls: Map<u64, PullView>, e: &StatusEvent) -> Map<u64, PullView> {
    match status_result(e) {
        Some(r) => with_build_result(pulls, e.sha@, r),
        None => pulls,
    }
}

/// The queue is evaluated on the table `pulls`, after `calls`.
pub open spec fn then_tick(
    pulls: Map<u64, PullView>,
    head: Option<InFlight>,
    calls: Seq<ActionView>,
    config: &RepoConfig,
    now: u64,
) -> Progress {
    let r = tick(State { pulls, head }, config, now);
    Progress { state: r.state, calls: calls + r.calls, next: r.next }
}

/// A comment is looked at: its text is to be parsed; without a text the
/// queue is evaluated right away.
pub open spec fn comment_step(
    s: State,
    config: &RepoConfig,
    sender: Seq<char>,
    number: u64,
    body: Option<Seq<char>>,
    node_id: Seq<char>,
    now: u64,
) -> Progress {
    match body {
        Some(b) => Progress {
            state: s,
            calls: Seq::empty(),
            next: StepView::Parse { sender, number, body: b, node_id },
        },
        None => then_tick(s.pulls, s.head, Seq::empty(), config, now),
    }
}

pub open spec fn option_text(t: Option<String>) -> Option<Seq<char>> {
    match t {
        Some(b) => Some(b@),
        None => None,
    }
}

/// What follows once the approval of a reviewed pull request is settled: a
/// submitted review is read as a comment.
pub open spec fn after_review(
    s: State,
    config: &RepoConfig,
    e: &PullRequestReviewEvent,
    now: u64,
) -> Progress {
    if e.action == ReviewAction::Submitted {
        comment_step(
            s,
            config,
            e.sender@,
            e.number,
            option_text(e.review.body),
            e.review.node_id@,
            now,
        )
    } else {
        then_tick(s.pulls, s.head, Seq::empty(), config, now)
    }
}

/// Whether the forge's answer may be stale: it repeats what was known
/// although the review says the opposite.
pub open spec fn requery(cached: bool, answer: bool, state: ReviewState) -> bool {
    ||| cached && answer && (state == ReviewState::Dismissed || state
        == ReviewState::ChangesRequested)
    ||| !cached && !answer && state == ReviewState::Approved
}

/// A review came in: for a pull request in the table the forge is asked
/// for its review decision.
pub open spec fn review_event(
    s: State,
    config: &RepoConfig,
    e: &PullRequestReviewEvent,
    now: u64,
) -> Progress {
    if s.pulls.contains_key(e.number) {
        Progress {
            state: s,
            calls: Seq::empty(),
            next: StepView::ReviewDecision { number: e.number, delay_ms: 0, retried: false },
        }
    } else {
        after_review(s, config, e, now)
    }
}

/// The forge answered `answer`: a first answer that may be stale is asked
/// for once more after a pause, any other is taken for the approval.
pub open spec fn review_decision(
    s: State,
    config: &RepoConfig,
    e: &PullRequestReviewEvent,
    answer: bool,
    retried: bool,
    now: u64,
) -> Progress {
    if !s.pulls.contains_key(e.number) {
        after_review(s, config, e, now)
    } else if !retried && requery(s.pulls[e.number].approved, answer, e.review.state) {
        Progress {
            state: s,
            calls: Seq::empty(),
            next: StepView::ReviewDecision {
                number: e.number,
                delay_ms: REVIEW_RETRY_DELAY_MS,
                retried: true,
            },
        }
    } else {
        after_review(
            State {
                pulls: s.pulls.insert(
                    e.number,
                    PullView { approved: answer, ..s.pulls[e.number] },
                ),
                head: s.head,
            },
            config,
            e,
            now,
        )
    }
}

/// A comment was parsed: a command is acknowledged and its sender is to be
/// checked; anything else ends with the queue being evaluated, after the
/// help text where the comment was no valid command.
pub open spec fn commented(
    s: State,
    config: &RepoConfig,
    sender: Seq<char>,
    number: u64,
    parsed: ParsedComment,
    node_id: Seq<char>,
    now: u64,
) -> Progress {
    match parsed {
        ParsedComment::NoCommand => then_tick(s.pulls, s.head, Seq::empty(), config, now),
        ParsedComment::Invalid => then_tick(
            s.pulls,
            s.head,
            seq![ActionView::CreateComment { number, body: text::invalid_command_text() }],
            config,
            now,
        ),
        ParsedComment::Valid(command) => Progress {
            state: s,
            calls: seq![ActionView::AddReaction { node_id, kind: ReactionType::Rocket }],
            next: StepView::Authorize { sender, number, command },
        },
    }
}

/// The record of pull request `number`, if it is in the table.
pub open spec fn lookup(pulls: Map<u64, PullView>, number: u64) -> Option<PullView> {
    if pulls.contains_key(number) {
        Some(pulls[number])
    } else {
        None
    }
}

/// The sender of a command was checked: a command of someone who may not
/// give it is passed over.
pub open spec fn commanded(
    s: State,
    config: &RepoConfig,
    sender: Seq<char>,
    number: u64,
    command: Command,
    authorized: bool,
    now: u64,
) -> Progress {
    if !authorized {
        then_tick(s.pulls, s.head, Seq::empty(), config, now)
    } else {
        let p = lookup(s.pulls, number);
        let pulls = match p {
            Some(q) => s.pulls.insert(number, command.effect(q, config, now)),
            None => s.pulls,
        };
        let calls = command.calls(number, p, sender, config);
        if p is Some && command.wants_canary(p->0) {
            Progress { state: State { pulls, head: s.head }, calls, next: prepare_step(p->0, true) }
        } else {
            then_tick(pulls, s.head, calls, config, now)
        }
    }
}

/// The working copy answered for a test-only merge commit of pull request
/// `number`: with a usable commit the pull request becomes a canary.
pub open spec fn canary_prepared(
    s: State,
    config: &RepoConfig,
    number: u64,
    merge_oid: Option<Seq<char>>,
    now: u64,
) -> Progress {
    if s.pulls.contains_key(number) && s.pulls[number].status is InReview {
        let p = s.pulls[number];
        if usable(s.pulls, merge_oid) {
            then_tick(
                s.pulls.insert(
                    number,
                    PullView {
                        status: StatusView::Canary { merge_oid: merge_oid->0, results: Map::empty() },
                        ..p
                    },
                ),
                s.head,
                seq![
                    ActionView::CreateComment { number, body: text::testing_text(merge_oid->0) },
                ],
                config,
                now,
            )
        } else {
            then_tick(
                s.pulls,
                s.head,
                seq![ActionView::CreateComment { number, body: text::conflict_text(p.author) }],
                config,
                now,
            )
        }
    } else {
        then_tick(s.pulls, s.head, Seq::empty(), config, now)
    }
}

/// What a webhook event leads to. An event from another repository is
/// dropped; every other event ends with one evaluation of the queue, at
/// once or after the answers that it needs.
pub open spec fn webhook(
    s: State,
    config: &RepoConfig,
    board: Option<ProjectBoard>,
    e: &Event,
    now: u64,
) -> Progress {
    if !ours(e, config) {
        Progress { state: s, calls: Seq::empty(), next: StepView::Done }
    } else {
        match *e {
            Event::PullRequest(e) => {
                let c = pull_request_event(s.pulls, config, board, &e);
                then_tick(c.pulls, s.head, c.calls, config, now)
            },
            Event::CheckRun(e) => then_tick(
                check_run_event(s.pulls, &e),
                s.head,
                Seq::empty(),
                config,
                now,
            ),
            Event::Status(e) => then_tick(status_event(s.pulls, &e), s.head, Seq::empty(), config, now),
            Event::IssueComment(e) => if e.action == CommentAction::Created
                && e.issue.pull_request {
                comment_step(
                    s,
                    config,
                    e.sender@,
                    e.issue.number,
                    option_text(e.comment.body),
                    e.comment.node_id@,
                    now,
                )
            } else {
                then_tick(s.pulls, s.head, Seq::empty(), config, now)
            },
            Event::PullRequestReview(e) => review_event(s, config, &e, now),
            Event::PullRequestReviewComment(e) => if e.action == CommentAction::Created {
                comment_step(
                    s,
                    config,
                    e.sender@,
                    e.number,
                    option_text(e.comment.body),
                    e.comment.node_id@,
                    now,
                )
            } else {
                then_tick(s.pulls, s.head, Seq::empty(), config, now)
            },
            Event::Unsupported { .. } => then_tick(s.pulls, s.head, Seq::empty(), config, now),
        }
    }
}

/// The table that holds a fresh record for each of `pulls`; of two with
/// one number the later one stays.
pub open spec fn listed(pulls: Seq<PullRequest>, names: &Labels) -> Map<u64, PullView>
    decreases pulls.len(),
{
    if pulls.len() == 0 {
        Map::empty()
    } else {
        listed(pulls.drop_last(), names).insert(
            pulls.last().number,
            PullView::fresh(&pulls.last(), names),
        )
    }
}

/// The call that creates the label `name` unless it is among `existing`.
pub open spec fn created(existing: Set<Seq<char>>, name: Seq<char>) -> Seq<ActionView> {
    if existing.contains(name) {
        Seq::empty()
    } else {
        seq![ActionView::CreateLabel { label: name, color: label_color() }]
    }
}

/// The calls that create those of the three labels that the repository
/// lacks, each once.
pub open spec fn missing_labels(names: &Labels, existing: Set<Seq<char>>) -> Seq<ActionView> {
    let s = names.squash_name();
    let h = names.high_priority_name();
    created(existing, s) + created(existing.insert(s), h) + created(
        existing.insert(s).insert(h),
        names.low_priority_name(),
    )
}

/// The state rebuilt from what the forge lists: every open pull request is
/// in review, nothing is under test.
pub open spec fn synchronized(
    config: &RepoConfig,
    pulls: Seq<PullRequest>,
    existing: Set<Seq<char>>,
    now: u64,
) -> Progress {
    then_tick(
        listed(pulls, &config.labels),
        None,
        missing_labels(&config.labels, existing),
        config,
        now,
    )
}


/// Whether the record `q` may take the place of `p` without harm to the
/// table: it keeps the number, brings no merge commit of its own, is under
/// test only if `p` was, and is queued at its own priority if it is queued.
pub open spec fn tame(p: PullView, q: PullView) -> bool {
    &&& q.number == p.number
    &&& q.status.merge_oid() is Some ==> q.status.merge_oid() == p.status.merge_oid()
    &&& q.status is Testing ==> p.status is Testing
    &&& q.status is Queued ==> q.status->Queued_priority == q.priority
}

pub proof fn lemma_tame_update(s: State, n: u64, q: PullView)
    requires
        s.inv(),
        s.pulls.contains_key(n),
        tame(s.pulls[n], q),
    ensures
        (State { pulls: s.pulls.insert(n, q), head: s.head }).inv(),
{
    let t = State { pulls: s.pulls.insert(n, q), head: s.head };
    assert(s.pulls[n].number == n);
    assert forall|m: u64| t.testing(m) implies t.head is Some && t.head->0.number == m by {
        assert(s.testing(m));
    }
    assert forall|a: u64, b: u64|
        t.pulls.contains_key(a) && t.pulls.contains_key(b) && a != b && (
        #[trigger] t.pulls[a]).status.merge_oid() is Some implies t.pulls[a].status.merge_oid() != (
    #[trigger] t.pulls[b]).status.merge_oid() by {
        assert(s.pulls[a].status.merge_oid() is Some);
        if t.pulls[b].status.merge_oid() is Some {
            assert(s.pulls[b].status.merge_oid() is Some);
            assert(s.pulls[a].status.merge_oid() != s.pulls[b].status.merge_oid());
        }
    }
    assert forall|m: u64|
        t.pulls.contains_key(m) && (#[trigger] t.pulls[m]).status.merge_oid() is Some implies t.pulls[m].status.merge_oid()->0.len()
        > 0 by {
        assert(s.pulls[m].status.merge_oid() is Some);
    }
}

/// A record without a merge commit, put under its own number.
pub proof fn lemma_plain_insert(s: State, q: PullView)
    requires
        s.inv(),
        q.status is InReview,
    ensures
        (State { pulls: s.pulls.insert(q.number, q), head: s.head }).inv(),
{
    let t = State { pulls: s.pulls.insert(q.number, q), head: s.head };
    assert forall|m: u64| t.testing(m) implies t.head is Some && t.head->0.number == m by {
        assert(s.testing(m));
    }
    assert forall|a: u64, b: u64|
        t.pulls.contains_key(a) && t.pulls.contains_key(b) && a != b && (
        #[trigger] t.pulls[a]).status.merge_oid() is Some implies t.pulls[a].status.merge_oid() != (
    #[trigger] t.pulls[b]).status.merge_oid() by {
        if b != q.number {
            assert(s.pulls[a].status.merge_oid() != s.pulls[b].status.merge_oid());
        }
    }
}

pub proof fn lemma_remove(s: State, n: u64)
    requires
        s.inv(),
    ensures
        (State { pulls: s.pulls.remove(n), head: s.head }).inv(),
{
    let t = State { pulls: s.pulls.remove(n), head: s.head };
    assert forall|m: u64| t.testing(m) implies t.head is Some && t.head->0.number == m by {
        assert(s.testing(m));
    }
    assert forall|a: u64, b: u64|
        t.pulls.contains_key(a) && t.pulls.contains_key(b) && a != b && (
        #[trigger] t.pulls[a]).status.merge_oid() is Some implies t.pulls[a].status.merge_oid() != (
    #[trigger] t.pulls[b]).status.merge_oid() by {
        assert(s.pulls[a].status.merge_oid() != s.pulls[b].status.merge_oid());
    }
}

/// A pull request event keeps the table in order.
pub proof fn lemma_pull_request_event_keeps_inv(
    s: State,
    config: &RepoConfig,
    board: Option<ProjectBoard>,
    e: &PullRequestEvent,
)
    requires
        s.inv(),
    ensures
        (State { pulls: pull_request_event(s.pulls, config, board, e).pulls, head: s.head }).inv(),
{
    let n = e.pull_request.number;
    match e.action {
        PullRequestEventAction::Opened => {
            lemma_plain_insert(s, PullView::fresh(&e.pull_request, &config.labels));
        },
        PullRequestEventAction::Reopened => {
            lemma_plain_insert(s, PullView::fresh(&e.pull_request, &config.labels));
        },
        PullRequestEventAction::Closed => {
            lemma_remove(s, n);
        },
        _ => {
            if s.pulls.contains_key(n) {
                lemma_tame_update(s, n, touched(s.pulls[n], config, e).0);
            }
        },
    }
}

/// Under a table in order, the holder of a merge commit is the one pull
/// request that has it.
pub proof fn lemma_holder(s: State, oid: Seq<char>, n: u64)
    requires
        s.inv(),
        s.pulls.contains_key(n),
        s.pulls[n].status.merge_oid() == Some(oid),
    ensures
        holder(s.pulls, oid) == Some(n),
{
    let m = choose|m: u64|
        s.pulls.contains_key(m) && (#[trigger] s.pulls[m]).status.merge_oid() == Some(oid);
    if m != n {
        assert(s.pulls[n].status.merge_oid() != s.pulls[m].status.merge_oid());
    }
}

/// A test result keeps the table in order.
pub proof fn lemma_build_result_keeps_inv(s: State, oid: Seq<char>, r: BuildResultView)
    requires
        s.inv(),
    ensures
        (State { pulls: with_build_result(s.pulls, oid, r), head: s.head }).inv(),
{
    match holder(s.pulls, oid) {
        Some(n) => {
            lemma_tame_update(s, n, s.pulls[n].with_result(r));
        },
        None => {},
    }
}

/// A command keeps the table in order.
pub proof fn lemma_command_keeps_inv(
    s: State,
    config: &RepoConfig,
    number: u64,
    command: Command,
    now: u64,
)
    requires
        s.inv(),
        s.pulls.contains_key(number),
    ensures
        (State {
            pulls: s.pulls.insert(number, command.effect(s.pulls[number], config, now)),
            head: s.head,
        }).inv(),
{
    lemma_tame_update(s, number, command.effect(s.pulls[number], config, now));
}

/// A canary with a usable merge commit keeps the table in order.
pub proof fn lemma_canary_keeps_inv(s: State, number: u64, oid: Seq<char>)
    requires
        s.inv(),
        s.pulls.contains_key(number),
        usable(s.pulls, Some(oid)),
    ensures
        (State {
            pulls: s.pulls.insert(
                number,
                PullView {
                    status: StatusView::Canary { merge_oid: oid, results: Map::empty() },
                    ..s.pulls[number]
                },
            ),
            head: s.head,
        }).inv(),
{
    let q = PullView {
        status: StatusView::Canary { merge_oid: oid, results: Map::empty() },
        ..s.pulls[number]
    };
    let t = State { pulls: s.pulls.insert(number, q), head: s.head };
    assert(s.pulls[number].number == number);
    assert forall|m: u64| t.testing(m) implies t.head is Some && t.head->0.number == m by {
        assert(s.testing(m));
    }
    assert forall|a: u64, b: u64|
        t.pulls.contains_key(a) && t.pulls.contains_key(b) && a != b && (
        #[trigger] t.pulls[a]).status.merge_oid() is Some implies t.pulls[a].status.merge_oid() != (
    #[trigger] t.pulls[b]).status.merge_oid() by {
        if a == number {
            assert(s.pulls[b].status.merge_oid() != Some(oid));
        } else if b == number {
            assert(s.pulls[a].status.merge_oid() != Some(oid));
        } else {
            assert(s.pulls[a].status.merge_oid() != s.pulls[b].status.merge_oid());
        }
    }
}

/// Every record of a table rebuilt from a listing is in review and stands
/// under its own number.
pub proof fn lemma_listed(pulls: Seq<PullRequest>, names: &Labels)
    ensures
        forall|n: u64| #[trigger]
            listed(pulls, names).contains_key(n) ==> listed(pulls, names)[n].number == n && listed(
                pulls,
                names,
            )[n].status is InReview,
    decreases pulls.len(),
{
    if pulls.len() > 0 {
        lemma_listed(pulls.drop_last(), names);
    }
}

pub proof fn lemma_listed_keeps_inv(pulls: Seq<PullRequest>, names: &Labels)
    ensures
        (State { pulls: listed(pulls, names), head: None }).inv(),
{
    lemma_listed(pulls, names);
    let t = State { pulls: listed(pulls, names), head: None };
    assert forall|n: u64| t.pulls.contains_key(n) implies (#[trigger] t.pulls[n]).number == n by {
        assert(listed(pulls, names).contains_key(n));
    }
    assert forall|n: u64| t.pulls.contains_key(n) implies (#[trigger] t.pulls[n]).status is InReview by {
        assert(listed(pulls, names).contains_key(n));
    }
}

} // verus!
