//! What holds of the event processor whatever it is given.

use crate::command::Command;
use crate::config::RepoConfig;
use crate::event::{
    Event, PullRequest, PullRequestEvent, PullRequestEventAction, PullRequestReviewEvent,
    ReviewAction,
};
use crate::forge::{ActionView, ProjectBoard};
use crate::model::State;
use crate::queue::{
    before, candidate, deadline_of, elapsed, is_next, keyed, landed, lemma_next_is,
    next_candidate, prepared, tick, usable,
};
use crate::state::{BuildResultView, PullView, StatusView};
use crate::step::StepView;
use crate::transition::{
    canary_prepared, check_run_event, check_run_result, commanded, holder,
    lemma_build_result_keeps_inv, lemma_command_keeps_inv, lemma_holder, lemma_listed,
    lemma_pull_request_event_keeps_inv, lemma_remove, lemma_tame_update, listed, ours,
    pull_request_event, requery, review_decision, status_event, status_result, synchronized,
    touched, webhook, with_build_result,
};
use vstd::prelude::*;

verus! {

/// At most one pull request is under test for a merge: any two that are,
/// are one and the same.
pub proof fn law_one_under_test(s: State, n: u64, m: u64)
    requires
        s.inv(),
        s.testing(n),
        s.testing(m),
    ensures
        n == m,
{
}

/// No two pull requests have the same merge commit.
pub proof fn law_merge_commits_differ(s: State, n: u64, m: u64)
    requires
        s.inv(),
        s.pulls.contains_key(n),
        s.pulls.contains_key(m),
        n != m,
        s.pulls[n].status.merge_oid() is Some,
    ensures
        s.pulls[n].status.merge_oid() != s.pulls[m].status.merge_oid(),
{
}

/// A command queues a pull request only if the pull request may be tested
/// at that moment.
pub proof fn law_queued_when_eligible(p: PullView, config: &RepoConfig, command: Command, now: u64)
    requires
        !(p.status is Queued),
        command.effect(p, config, now).status is Queued,
    ensures
        command.effect(p, config, now).eligible(config),
        command.effect(p, config, now).status == (StatusView::Queued {
            priority: p.priority,
            since: now,
        }),
{
}

/// Whether every pull request that is queued in `t` was queued in `s`
/// already or may be tested.
pub open spec fn queued_with_leave(s: State, t: State, config: &RepoConfig) -> bool {
    forall|n: u64|
        t.pulls.contains_key(n) && (#[trigger] t.pulls[n]).status is Queued ==> t.pulls[n].eligible(
            config,
        ) || (s.pulls.contains_key(n) && s.pulls[n].status is Queued)
}

/// Whether every pull request that is queued in `t` stood in `s` as it
/// stands in `t`.
pub open spec fn queues_nothing(s: State, t: State) -> bool {
    forall|n: u64|
        t.pulls.contains_key(n) && (#[trigger] t.pulls[n]).status is Queued ==> s.pulls.contains_key(
            n,
        ) && s.pulls[n] == t.pulls[n]
}

/// An evaluation of the queue queues nothing.
pub proof fn law_tick_queues_nothing(s: State, config: &RepoConfig, now: u64)
    ensures
        queues_nothing(s, tick(s, config, now).state),
{
}

/// The answer to a merge queues nothing.
pub proof fn law_landed_queues_nothing(
    s: State,
    config: &RepoConfig,
    number: u64,
    error: Option<Seq<char>>,
)
    ensures
        queues_nothing(s, landed(s, config, number, error).state),
{
}

/// The answer to the making of a merge commit queues nothing.
pub proof fn law_prepared_queues_nothing(
    s: State,
    config: &RepoConfig,
    number: u64,
    merge_oid: Option<Seq<char>>,
    now: u64,
)
    ensures
        queues_nothing(s, prepared(s, config, number, merge_oid, now).state),
        queues_nothing(s, canary_prepared(s, config, number, merge_oid, now).state),
{
}

/// A webhook event leaves no pull request queued that was not queued
/// before, unless it may be tested.
pub proof fn law_webhook_queues_with_leave(
    s: State,
    config: &RepoConfig,
    board: Option<ProjectBoard>,
    e: &Event,
    now: u64,
)
    ensures
        queued_with_leave(s, webhook(s, config, board, e, now).state, config),
{
    let r = webhook(s, config, board, e, now);
    let mid = State { pulls: handled(s.pulls, config, board, e), head: s.head };
    law_tick_queues_nothing(mid, config, now);
    assert forall|n: u64|
        r.state.pulls.contains_key(n) && (#[trigger] r.state.pulls[n]).status is Queued implies r.state.pulls[n].eligible(
        config,
    ) || (s.pulls.contains_key(n) && s.pulls[n].status is Queued) by {
        if r.state != s {
            assert(r.state == tick(mid, config, now).state);
            assert(mid.pulls.contains_key(n) && mid.pulls[n] == r.state.pulls[n]);
        }
    }
}

/// The forge's answer on a review leaves no pull request queued that was
/// not queued before.
pub proof fn law_review_queues_with_leave(
    s: State,
    config: &RepoConfig,
    e: &PullRequestReviewEvent,
    answer: bool,
    retried: bool,
    now: u64,
)
    ensures
        queued_with_leave(s, review_decision(s, config, e, answer, retried, now).state, config),
{
    let r = review_decision(s, config, e, answer, retried, now);
    let mid = if s.pulls.contains_key(e.number) {
        State {
            pulls: s.pulls.insert(e.number, PullView { approved: answer, ..s.pulls[e.number] }),
            head: s.head,
        }
    } else {
        s
    };
    law_tick_queues_nothing(mid, config, now);
    law_tick_queues_nothing(s, config, now);
    assert forall|n: u64|
        r.state.pulls.contains_key(n) && (#[trigger] r.state.pulls[n]).status is Queued implies r.state.pulls[n].eligible(
        config,
    ) || (s.pulls.contains_key(n) && s.pulls[n].status is Queued) by {
        if r.state != s && r.state != mid {
            if r.state == tick(mid, config, now).state {
                assert(mid.pulls.contains_key(n) && mid.pulls[n] == r.state.pulls[n]);
            } else {
                assert(r.state == tick(s, config, now).state);
            }
        }
    }
}

/// Carrying out a command leaves no pull request queued that was not
/// queued before, unless it may be tested.
pub proof fn law_command_queues_with_leave(
    s: State,
    config: &RepoConfig,
    sender: Seq<char>,
    number: u64,
    command: Command,
    authorized: bool,
    now: u64,
)
    ensures
        queued_with_leave(
            s,
            commanded(s, config, sender, number, command, authorized, now).state,
            config,
        ),
{
    let r = commanded(s, config, sender, number, command, authorized, now);
    assert forall|n: u64|
        r.state.pulls.contains_key(n) && (#[trigger] r.state.pulls[n]).status is Queued implies r.state.pulls[n].eligible(
        config,
    ) || (s.pulls.contains_key(n) && s.pulls[n].status is Queued) by {
        if authorized && s.pulls.contains_key(number) {
            let mid = State {
                pulls: s.pulls.insert(number, command.effect(s.pulls[number], config, now)),
                head: s.head,
            };
            law_tick_queues_nothing(mid, config, now);
            if command.wants_canary(s.pulls[number]) {
            } else {
                assert(r.state == tick(mid, config, now).state);
                assert(mid.pulls.contains_key(n) && mid.pulls[n] == r.state.pulls[n]);
                if n == number {
                    if !(s.pulls[number].status is Queued) {
                        law_queued_when_eligible(s.pulls[number], config, command, now);
                    }
                }
            }
        } else {
            law_tick_queues_nothing(s, config, now);
        }
    }
}

/// A state rebuilt from the forge has nothing queued.
pub proof fn law_synchronized_queues_nothing(
    config: &RepoConfig,
    pulls: Seq<PullRequest>,
    existing: Set<Seq<char>>,
    now: u64,
    n: u64,
)
    requires
        synchronized(config, pulls, existing, now).state.pulls.contains_key(n),
    ensures
        synchronized(config, pulls, existing, now).state.pulls[n].status is InReview,
{
    law_synchronize_converges(config, pulls, existing, now, now);
    lemma_listed(pulls, &config.labels);
    assert(listed(pulls, &config.labels).contains_key(n));
}

/// A pull request that the forge reports closed is no longer in the table
/// once the event has been dealt with.
pub proof fn law_closed_is_gone(
    s: State,
    config: &RepoConfig,
    board: Option<ProjectBoard>,
    e: PullRequestEvent,
    now: u64,
)
    requires
        s.inv(),
        e.action == PullRequestEventAction::Closed,
        ours(&Event::PullRequest(e), config),
    ensures
        !webhook(s, config, board, &Event::PullRequest(e), now).state.pulls.contains_key(
            e.pull_request.number,
        ),
{
    let mid = State { pulls: s.pulls.remove(e.pull_request.number), head: s.head };
    lemma_remove(s, e.pull_request.number);
    law_tick_adds_nothing(mid, config, now);
}

/// An evaluation of the queue brings no pull request into the table.
pub proof fn law_tick_adds_nothing(s: State, config: &RepoConfig, now: u64)
    requires
        s.inv(),
    ensures
        forall|n: u64|
            tick(s, config, now).state.pulls.contains_key(n) ==> s.pulls.contains_key(n),
{
    match s.in_flight() {
        Some(m) => {
            assert(s.pulls[m].number == m);
        },
        None => {},
    }
}

/// The queue never tests the lower of two priorities first.
pub proof fn law_priority(pulls: Map<u64, PullView>, config: &RepoConfig, a: u64, b: u64)
    requires
        keyed(pulls),
        pulls.contains_key(a),
        pulls.contains_key(b),
        candidate(pulls[a], config),
        candidate(pulls[b], config),
        pulls[a].status->Queued_priority > pulls[b].status->Queued_priority,
    ensures
        next_candidate(pulls, config) != Some(b),
        (forall|m: u64|
            pulls.contains_key(m) && candidate(#[trigger] pulls[m], config) ==> m == a || m == b)
            ==> next_candidate(pulls, config) == Some(a),
{
    if next_candidate(pulls, config) == Some(b) {
        assert(before(pulls[b], pulls[a]));
    }
    if forall|m: u64|
        pulls.contains_key(m) && candidate(#[trigger] pulls[m], config) ==> m == a || m == b {
        assert(is_next(pulls, config, a));
        lemma_next_is(pulls, config, a);
    }
}

/// Within one priority the queue tests first what entered it first.
pub proof fn law_first_in_first_out(pulls: Map<u64, PullView>, config: &RepoConfig, a: u64, b: u64)
    requires
        keyed(pulls),
        pulls.contains_key(a),
        pulls.contains_key(b),
        candidate(pulls[a], config),
        candidate(pulls[b], config),
        pulls[a].status->Queued_priority == pulls[b].status->Queued_priority,
        pulls[a].status->Queued_since < pulls[b].status->Queued_since,
    ensures
        next_candidate(pulls, config) != Some(b),
        (forall|m: u64|
            pulls.contains_key(m) && candidate(#[trigger] pulls[m], config) ==> m == a || m == b)
            ==> next_candidate(pulls, config) == Some(a),
{
    if next_candidate(pulls, config) == Some(b) {
        assert(before(pulls[b], pulls[a]));
    }
    if forall|m: u64|
        pulls.contains_key(m) && candidate(#[trigger] pulls[m], config) ==> m == a || m == b {
        assert(is_next(pulls, config, a));
        lemma_next_is(pulls, config, a);
    }
}

/// Rebuilding the state from the forge leads to one and the same state,
/// whatever the state was before and whatever the time: every listed pull
/// request is in review, nothing is under test and nothing is left to do.
/// A later evaluation of the queue leaves that state as it is.
pub proof fn law_synchronize_converges(
    config: &RepoConfig,
    pulls: Seq<PullRequest>,
    existing: Set<Seq<char>>,
    now: u64,
    later: u64,
)
    ensures
        synchronized(config, pulls, existing, now).state == (State {
            pulls: listed(pulls, &config.labels),
            head: None,
        }),
        synchronized(config, pulls, existing, now).next == StepView::Done,
        tick(synchronized(config, pulls, existing, now).state, config, later).state == synchronized(
            config,
            pulls,
            existing,
            now,
        ).state,
{
    let names = &config.labels;
    lemma_listed(pulls, names);
    let t = listed(pulls, names);
    assert forall|n: u64| !is_next(t, config, n) by {
        if t.contains_key(n) {
            assert(listed(pulls, names).contains_key(n));
        }
    }
}


/// A pull request event that is taken a second time changes a record no
/// further.
pub proof fn law_touch_twice(p: PullView, config: &RepoConfig, e: &PullRequestEvent)
    ensures
        touched(touched(p, config, e).0, config, e).0 == touched(p, config, e).0,
{
    let q = touched(p, config, e).0;
    let r = touched(q, config, e).0;
    match e.action {
        PullRequestEventAction::Labeled => {
            match e.label {
                Some(l) => {
                    assert(q.labels.insert(l@) =~= q.labels);
                },
                None => {},
            }
        },
        PullRequestEventAction::Unlabeled => {
            match e.label {
                Some(l) => {
                    assert(q.labels.remove(l@) =~= q.labels);
                },
                None => {},
            }
        },
        PullRequestEventAction::Synchronize => {
            if p.head_demotes() {
                assert(!q.head_demotes());
            }
        },
        PullRequestEventAction::Edited => {
            assert(!q.base_demotes(e.pull_request.base.git_ref@));
        },
        _ => {},
    }
    assert(r.labels =~= q.labels);
}

/// A pull request event that is taken a second time changes the table no
/// further.
pub proof fn law_pull_request_event_twice(
    pulls: Map<u64, PullView>,
    config: &RepoConfig,
    board: Option<ProjectBoard>,
    e: &PullRequestEvent,
)
    ensures
        pull_request_event(
            pull_request_event(pulls, config, board, e).pulls,
            config,
            board,
            e,
        ).pulls == pull_request_event(pulls, config, board, e).pulls,
{
    let n = e.pull_request.number;
    let once = pull_request_event(pulls, config, board, e).pulls;
    let twice = pull_request_event(once, config, board, e).pulls;
    if pulls.contains_key(n) {
        law_touch_twice(pulls[n], config, e);
    }
    assert(twice =~= once);
}

/// A test result that comes in a second time changes the table no further.
pub proof fn law_build_result_twice(s: State, oid: Seq<char>, r: BuildResultView)
    requires
        s.inv(),
    ensures
        with_build_result(with_build_result(s.pulls, oid, r), oid, r) == with_build_result(
            s.pulls,
            oid,
            r,
        ),
{
    let once = with_build_result(s.pulls, oid, r);
    match holder(s.pulls, oid) {
        Some(n) => {
            let t = State { pulls: once, head: s.head };
            lemma_build_result_keeps_inv(s, oid, r);
            lemma_holder(t, oid, n);
            let q = s.pulls[n].with_result(r);
            assert(q.with_result(r).status == q.status) by {
                match q.status {
                    StatusView::Testing { results, .. } => {
                        assert(results.insert(r.check_name, r) =~= results);
                    },
                    StatusView::Canary { results, .. } => {
                        assert(results.insert(r.check_name, r) =~= results);
                    },
                    _ => {},
                }
            }
            assert(with_build_result(once, oid, r) =~= once);
        },
        None => {
            assert(holder(once, oid) is None);
        },
    }
}

/// A command that is given a second time at the same instant changes the
/// pull request no further.
pub proof fn law_command_twice(p: PullView, config: &RepoConfig, command: Command, now: u64)
    ensures
        command.effect(command.effect(p, config, now), config, now) == command.effect(
            p,
            config,
            now,
        ),
{
    let q = command.effect(p, config, now);
    if command.demotes(p) {
        assert(!command.demotes(q));
        assert(!command.enqueues(q, config));
    }
}

/// An evaluation of the queue, made again at the same instant, changes
/// nothing, asks for no call and leads to the same step.
pub proof fn law_tick_twice(s: State, config: &RepoConfig, now: u64)
    requires
        s.inv(),
    ensures
        tick(tick(s, config, now).state, config, now).state == tick(s, config, now).state,
        tick(tick(s, config, now).state, config, now).next == tick(s, config, now).next,
        tick(tick(s, config, now).state, config, now).calls == Seq::<ActionView>::empty(),
{
    match s.in_flight() {
        None => {},
        Some(n) => {
            assert(s.pulls[n].number == n);
        },
    }
}

/// The table after the part of a webhook event that needs no answer from
/// outside.
pub open spec fn handled(
    pulls: Map<u64, PullView>,
    config: &RepoConfig,
    board: Option<ProjectBoard>,
    e: &Event,
) -> Map<u64, PullView> {
    match *e {
        Event::PullRequest(e) => pull_request_event(pulls, config, board, &e).pulls,
        Event::CheckRun(e) => check_run_event(pulls, &e),
        Event::Status(e) => status_event(pulls, &e),
        _ => pulls,
    }
}

/// The part of a webhook event that needs no answer from outside changes
/// the table no further when it is taken a second time.
pub proof fn law_handled_twice(
    s: State,
    config: &RepoConfig,
    board: Option<ProjectBoard>,
    e: &Event,
)
    requires
        s.inv(),
    ensures
        handled(handled(s.pulls, config, board, e), config, board, e) == handled(
            s.pulls,
            config,
            board,
            e,
        ),
{
    match *e {
        Event::PullRequest(pe) => {
            law_pull_request_event_twice(s.pulls, config, board, &pe);
        },
        Event::CheckRun(ce) => {
            match check_run_result(&ce) {
                Some(r) => {
                    law_build_result_twice(s, ce.check_run.head_sha@, r);
                },
                None => {},
            }
        },
        Event::Status(se) => {
            match status_result(&se) {
                Some(r) => {
                    law_build_result_twice(s, se.sha@, r);
                },
                None => {},
            }
        },
        _ => {},
    }
}

/// The part of a webhook event that needs no answer from outside keeps the
/// table in order.
pub proof fn law_handled_keeps_inv(
    s: State,
    config: &RepoConfig,
    board: Option<ProjectBoard>,
    e: &Event,
)
    requires
        s.inv(),
    ensures
        (State { pulls: handled(s.pulls, config, board, e), head: s.head }).inv(),
{
    match *e {
        Event::PullRequest(pe) => {
            lemma_pull_request_event_keeps_inv(s, config, board, &pe);
        },
        Event::CheckRun(ce) => {
            match check_run_result(&ce) {
                Some(r) => {
                    lemma_build_result_keeps_inv(
                        s,
                        ce.check_run.head_sha@,
                        r,
                    );
                },
                None => {},
            }
        },
        Event::Status(se) => {
            match status_result(&se) {
                Some(r) => {
                    lemma_build_result_keeps_inv(s, se.sha@, r);
                },
                None => {},
            }
        },
        _ => {},
    }
}

/// A webhook event leaves the state as it is when it is delivered a second
/// time at the same instant, provided that it finds nothing to change in
/// the table it left. It finds nothing wherever the queue, on its
/// evaluation, sent no pull request back to review.
pub proof fn law_webhook_twice(
    s: State,
    config: &RepoConfig,
    board: Option<ProjectBoard>,
    e: &Event,
    now: u64,
)
    requires
        s.inv(),
        handled(webhook(s, config, board, e, now).state.pulls, config, board, e) == webhook(
            s,
            config,
            board,
            e,
            now,
        ).state.pulls,
    ensures
        webhook(webhook(s, config, board, e, now).state, config, board, e, now).state == webhook(
            s,
            config,
            board,
            e,
            now,
        ).state,
{
    let first = webhook(s, config, board, e, now);
    if ours(e, config) {
        let mid = State { pulls: handled(s.pulls, config, board, e), head: s.head };
        law_handled_keeps_inv(s, config, board, e);
        law_tick_twice(mid, config, now);
        if first.state != s {
            assert(first.state == tick(mid, config, now).state);
        }
        let again = State {
            pulls: handled(first.state.pulls, config, board, e),
            head: first.state.head,
        };
        assert(again == first.state);
        let second = webhook(first.state, config, board, e, now);
        if second.state != first.state {
            assert(second.state == tick(again, config, now).state);
        }
    }
}

/// Where the evaluation of the queue left the table as the event made it,
/// the event finds nothing to change when it is delivered a second time.
pub proof fn law_webhook_twice_untouched(
    s: State,
    config: &RepoConfig,
    board: Option<ProjectBoard>,
    e: &Event,
    now: u64,
)
    requires
        s.inv(),
        webhook(s, config, board, e, now).state.pulls == handled(s.pulls, config, board, e),
    ensures
        webhook(webhook(s, config, board, e, now).state, config, board, e, now).state == webhook(
            s,
            config,
            board,
            e,
            now,
        ).state,
{
    law_handled_twice(s, config, board, e);
    law_webhook_twice(s, config, board, e, now);
}


/// A command leaves the state as it is when it is given a second time at
/// the same instant, provided that it finds nothing to change in the
/// record it left. It finds nothing wherever the queue, on its evaluation,
/// did not send that pull request back to review.
pub proof fn law_command_request_twice(
    s: State,
    config: &RepoConfig,
    sender: Seq<char>,
    number: u64,
    command: Command,
    authorized: bool,
    now: u64,
)
    requires
        s.inv(),
        ({
            let t = commanded(s, config, sender, number, command, authorized, now).state;
            t.pulls.contains_key(number) ==> command.effect(t.pulls[number], config, now)
                == t.pulls[number]
        }),
    ensures
        commanded(
            commanded(s, config, sender, number, command, authorized, now).state,
            config,
            sender,
            number,
            command,
            authorized,
            now,
        ).state == commanded(s, config, sender, number, command, authorized, now).state,
{
    let first = commanded(s, config, sender, number, command, authorized, now);
    let mid = if authorized && s.pulls.contains_key(number) {
        State {
            pulls: s.pulls.insert(number, command.effect(s.pulls[number], config, now)),
            head: s.head,
        }
    } else {
        s
    };
    if authorized && s.pulls.contains_key(number) {
        lemma_command_keeps_inv(s, config, number, command, now);
    }
    law_tick_twice(mid, config, now);
    if first.state != mid {
        assert(first.state == tick(mid, config, now).state);
    }
    if authorized && first.state.pulls.contains_key(number) {
        assert(first.state.pulls.insert(number, first.state.pulls[number]) =~= first.state.pulls);
    }
}

/// The forge's answer on a review, taken a second time at the same
/// instant, leaves the state as the first time left it.
pub proof fn law_review_twice(
    s: State,
    config: &RepoConfig,
    e: &PullRequestReviewEvent,
    answer: bool,
    retried: bool,
    now: u64,
)
    requires
        s.inv(),
    ensures
        review_decision(
            review_decision(s, config, e, answer, retried, now).state,
            config,
            e,
            answer,
            retried,
            now,
        ).state == review_decision(s, config, e, answer, retried, now).state,
{
    let n = e.number;
    let first = review_decision(s, config, e, answer, retried, now);
    let reads = e.action == ReviewAction::Submitted && e.review.body is Some;
    if !s.pulls.contains_key(n) {
        if !reads {
            law_tick_twice(s, config, now);
            law_tick_adds_nothing(s, config, now);
            assert(first.state == tick(s, config, now).state);
        }
    } else if !retried && requery(s.pulls[n].approved, answer, e.review.state) {
    } else {
        let mid = State {
            pulls: s.pulls.insert(n, PullView { approved: answer, ..s.pulls[n] }),
            head: s.head,
        };
        lemma_tame_update(s, n, PullView { approved: answer, ..s.pulls[n] });
        if reads {
            assert(first.state == mid);
            assert(mid.pulls.insert(n, PullView { approved: answer, ..mid.pulls[n] })
                =~= mid.pulls);
        } else {
            let t = tick(mid, config, now).state;
            assert(first.state == t);
            law_tick_twice(mid, config, now);
            if t.pulls.contains_key(n) {
                law_tick_approval(mid, config, now, n);
                assert(t.pulls.insert(n, PullView { approved: answer, ..t.pulls[n] })
                    =~= t.pulls);
            }
        }
    }
}

/// An evaluation of the queue leaves the approval of every pull request
/// as it is.
pub proof fn law_tick_approval(s: State, config: &RepoConfig, now: u64, n: u64)
    requires
        s.inv(),
        tick(s, config, now).state.pulls.contains_key(n),
    ensures
        s.pulls.contains_key(n),
        tick(s, config, now).state.pulls[n].approved == s.pulls[n].approved,
{
    match s.in_flight() {
        Some(m) => {
            assert(s.pulls[m].number == m);
        },
        None => {},
    }
}


/// The answer to a merge, taken a second time, changes nothing.
pub proof fn law_landed_twice(s: State, config: &RepoConfig, number: u64, error: Option<Seq<char>>)
    requires
        s.inv(),
    ensures
        landed(landed(s, config, number, error).state, config, number, error).state == landed(
            s,
            config,
            number,
            error,
        ).state,
{
}

/// The answer to the making of a merge commit, taken a second time at the
/// same instant, changes nothing.
pub proof fn law_prepared_twice(
    s: State,
    config: &RepoConfig,
    number: u64,
    merge_oid: Option<Seq<char>>,
    now: u64,
)
    requires
        s.inv(),
    ensures
        prepared(
            prepared(s, config, number, merge_oid, now).state,
            config,
            number,
            merge_oid,
            now,
        ).state == prepared(s, config, number, merge_oid, now).state,
{
    let first = prepared(s, config, number, merge_oid, now).state;
    if s.in_flight() is None && next_candidate(s.pulls, config) == Some(number) {
        assert(s.pulls.contains_key(number));
        assert(s.pulls[number].number == number);
        if !usable(s.pulls, merge_oid) {
            if next_candidate(first.pulls, config) == Some(number) {
                assert(is_next(first.pulls, config, number));
            }
        }
    }
}


/// A test is out of time exactly when the clock has passed the deadline
/// that was set at its start.
pub proof fn law_deadline(started_at: u64, timeout: u64, now: u64)
    ensures
        elapsed(started_at, now) > timeout <==> now > deadline_of(started_at, timeout),
{
}

} // verus!
