use bors::command::Command;
use bors::config::{ChecksConfig, GitConfig, Labels, Repo, RepoConfig};
use bors::event::{Branch, PullRequest, PullRequestEvent, PullRequestEventAction};
use bors::event_processor::EventProcessor;
use bors::forge::Action;
use bors::state::Status;
use bors::step::Step;

fn repo() -> Repo {
    Repo::new("o".to_string(), "r".to_string())
}

fn processor(require_review: bool) -> EventProcessor {
    let config = RepoConfig {
        repo: repo(),
        require_review,
        maintainer_mode: false,
        checks: vec![("app".to_string(), ChecksConfig { name: "ci".to_string() })],
        status: Vec::new(),
        timeout_seconds: Some(60),
        labels: Labels {
            squash: None,
            high_priority: None,
            low_priority: None,
            do_not_merge: vec!["wip".to_string()],
        },
    };
    let git = GitConfig {
        ssh_key_file: "k".to_string(),
        user: "bors".to_string(),
        email: "b@example.com".to_string(),
    };
    EventProcessor::new(config, &git)
}

fn open(p: &mut EventProcessor, number: u64, labels: &[&str], draft: bool) {
    let pull = PullRequest {
        number,
        title: "T".to_string(),
        body: None,
        author: "alice".to_string(),
        head: Branch { git_ref: "f".to_string(), sha: "HEAD".to_string(), repo: Some(repo()) },
        base: Branch { git_ref: "main".to_string(), sha: "BASE".to_string(), repo: Some(repo()) },
        labels: labels.iter().map(|l| l.to_string()).collect(),
        draft,
        maintainer_can_modify: None,
        merged: None,
    };
    p.handle_pull_request_event(&PullRequestEvent {
        action: PullRequestEventAction::Opened,
        pull_request: pull,
        label: None,
        repository: repo(),
    });
}

fn status(p: &EventProcessor, number: u64) -> &Status {
    &p.pulls.get(number).unwrap().status
}

#[test]
fn approve_queues_an_eligible_pull_request() {
    let mut p = processor(true);
    open(&mut p, 1, &[], false);
    let out = p.run_command("m", 1, Command::Approve, true, 5);
    assert!(p.pulls.get(1).unwrap().approved);
    assert_eq!(status(&p, 1), &Status::Queued { priority: 0, since: 5 });
    assert!(out.actions.is_empty());
    assert!(matches!(out.next, Step::Prepare { number: 1, canary: false, .. }));
}

#[test]
fn approve_does_not_queue_a_draft_or_a_blocked_pull_request() {
    let mut p = processor(true);
    open(&mut p, 1, &[], true);
    open(&mut p, 2, &["wip"], false);
    assert_eq!(p.run_command("m", 1, Command::Approve, true, 5).next, Step::Done);
    assert_eq!(p.run_command("m", 2, Command::Approve, true, 5).next, Step::Done);
    assert!(p.pulls.get(1).unwrap().approved);
    assert!(p.pulls.get(2).unwrap().approved);
    assert_eq!(status(&p, 1), &Status::InReview);
    assert_eq!(status(&p, 2), &Status::InReview);
}

#[test]
fn approve_twice_keeps_the_place_in_the_queue() {
    let mut p = processor(true);
    open(&mut p, 1, &[], false);
    p.run_command("m", 1, Command::Approve, true, 5);
    p.run_command("m", 1, Command::Approve, true, 9);
    assert_eq!(status(&p, 1), &Status::Queued { priority: 0, since: 5 });
}

#[test]
fn approve_queues_a_canary() {
    let mut p = processor(true);
    open(&mut p, 1, &[], false);
    p.run_command("m", 1, Command::Try, true, 1);
    p.prepared(1, true, Some("C1".to_string()), 2);
    let out = p.run_command("m", 1, Command::Approve, true, 3);
    assert_eq!(status(&p, 1), &Status::Queued { priority: 0, since: 3 });
    assert!(matches!(out.next, Step::Prepare { number: 1, canary: false, .. }));
}

#[test]
fn approve_leaves_a_running_test_alone() {
    let mut p = processor(true);
    open(&mut p, 1, &[], false);
    p.run_command("m", 1, Command::Approve, true, 1);
    p.prepared(1, false, Some("M1".to_string()), 2);
    let out = p.run_command("m", 1, Command::Approve, true, 3);
    assert_eq!(out.next, Step::Done);
    assert_eq!(
        status(&p, 1),
        &Status::Testing { merge_oid: "M1".to_string(), started_at: 2, results: Vec::new() }
    );
}

#[test]
fn unauthorized_commands_are_passed_over() {
    let mut p = processor(true);
    open(&mut p, 1, &[], false);
    let out = p.run_command("stranger", 1, Command::Approve, false, 5);
    assert_eq!(out.next, Step::Done);
    assert!(out.actions.is_empty());
    assert!(!p.pulls.get(1).unwrap().approved);
    assert_eq!(status(&p, 1), &Status::InReview);
    let out = p.run_command("stranger", 1, Command::Ping, false, 5);
    assert!(out.actions.is_empty());
}

#[test]
fn unapprove_sends_a_queued_or_tested_pull_request_back() {
    let mut p = processor(true);
    open(&mut p, 1, &["bors-high-priority"], false);
    p.run_command("m", 1, Command::Approve, true, 5);
    assert_eq!(status(&p, 1), &Status::Queued { priority: 1, since: 5 });
    let out = p.run_command("m", 1, Command::Unapprove, true, 6);
    assert!(!p.pulls.get(1).unwrap().approved);
    assert_eq!(status(&p, 1), &Status::InReview);
    assert_eq!(p.pulls.get(1).unwrap().priority, 0);
    assert_eq!(
        out.actions,
        vec![Action::RemoveLabel { number: 1, label: "bors-high-priority".to_string() }]
    );

    p.run_command("m", 1, Command::Approve, true, 7);
    p.prepared(1, false, Some("M1".to_string()), 8);
    assert!(matches!(status(&p, 1), Status::Testing { .. }));
    p.run_command("m", 1, Command::Unapprove, true, 9);
    assert_eq!(status(&p, 1), &Status::InReview);
    assert_eq!(p.merge_queue.head, None);
}

#[test]
fn unapprove_leaves_a_canary_running() {
    let mut p = processor(true);
    open(&mut p, 1, &[], false);
    p.run_command("m", 1, Command::Try, true, 1);
    p.prepared(1, true, Some("C1".to_string()), 2);
    p.run_command("m", 1, Command::Unapprove, true, 3);
    assert!(matches!(status(&p, 1), Status::Canary { .. }));
}

#[test]
fn retry_queues_again_what_was_under_test() {
    let mut p = processor(true);
    open(&mut p, 1, &[], false);
    p.run_command("m", 1, Command::Approve, true, 2);
    p.prepared(1, false, Some("M1".to_string()), 3);
    assert!(p.pulls.get(1).unwrap().tested);
    p.process_merge_queue(3 + 61);
    assert_eq!(status(&p, 1), &Status::InReview);
    let out = p.run_command("author", 1, Command::Retry, true, 70);
    assert!(p.pulls.get(1).unwrap().approved);
    assert_eq!(status(&p, 1), &Status::Queued { priority: 0, since: 70 });
    assert!(matches!(out.next, Step::Prepare { number: 1, .. }));
}

#[test]
fn retry_needs_an_earlier_test() {
    let mut p = processor(true);
    open(&mut p, 1, &[], false);
    assert_eq!(p.run_command("m", 1, Command::Retry, true, 1).next, Step::Done);
    assert_eq!(status(&p, 1), &Status::InReview);
    p.run_command("m", 1, Command::Approve, true, 2);
    p.prepared(1, false, None, 3);
    assert_eq!(status(&p, 1), &Status::InReview);
    assert!(!p.pulls.get(1).unwrap().tested);
    assert_eq!(p.run_command("m", 1, Command::Retry, true, 4).next, Step::Done);
    assert_eq!(status(&p, 1), &Status::InReview);
}

#[test]
fn retry_does_not_queue_what_may_not_be_tested() {
    let mut p = processor(true);
    open(&mut p, 1, &[], false);
    p.run_command("m", 1, Command::Approve, true, 2);
    p.prepared(1, false, Some("M1".to_string()), 3);
    p.run_command("m", 1, Command::Unapprove, true, 4);
    assert_eq!(p.run_command("m", 1, Command::Retry, true, 5).next, Step::Done);
    assert_eq!(status(&p, 1), &Status::InReview);
}

#[test]
fn review_is_not_needed_where_the_repository_does_not_ask_for_it() {
    let mut p = processor(false);
    open(&mut p, 1, &[], false);
    p.run_command("m", 1, Command::Approve, true, 4);
    assert_eq!(status(&p, 1), &Status::Queued { priority: 0, since: 4 });
    p.run_command("m", 1, Command::Unapprove, true, 5);
    p.run_command("m", 1, Command::Priority(0), true, 6);
    assert!(p.pulls.get(1).unwrap().eligible(&p.config));
}

#[test]
fn try_makes_a_canary_that_is_never_merged() {
    let mut p = processor(true);
    open(&mut p, 1, &[], false);
    let out = p.run_command("m", 1, Command::Try, true, 1);
    assert!(out.actions.is_empty());
    assert_eq!(
        out.next,
        Step::Prepare {
            number: 1,
            head_oid: "HEAD".to_string(),
            base_ref: "main".to_string(),
            base_oid: "BASE".to_string(),
            squash: false,
            author: "alice".to_string(),
            message: "Merge pull request #1\n\nT".to_string(),
            canary: true,
        }
    );
    assert_eq!(status(&p, 1), &Status::InReview);
    let out = p.prepared(1, true, Some("C1".to_string()), 2);
    assert_eq!(out.next, Step::Done);
    assert_eq!(
        out.actions,
        vec![Action::CreateComment { number: 1, body: "Testing C1".to_string() }]
    );
    assert_eq!(status(&p, 1), &Status::Canary { merge_oid: "C1".to_string(), results: Vec::new() });
    assert_eq!(p.merge_queue.head, None);
    assert_eq!(p.process_merge_queue(1_000_000).next, Step::Done);
    assert!(matches!(status(&p, 1), Status::Canary { .. }));
}

#[test]
fn try_on_anything_but_a_pull_request_in_review_does_nothing() {
    let mut p = processor(true);
    open(&mut p, 1, &[], false);
    p.run_command("m", 1, Command::Approve, true, 1);
    let out = p.run_command("m", 1, Command::Try, true, 2);
    assert!(matches!(out.next, Step::Prepare { canary: false, .. }));
    assert_eq!(status(&p, 1), &Status::Queued { priority: 0, since: 1 });
}

#[test]
fn canary_with_a_conflict_stays_in_review() {
    let mut p = processor(true);
    open(&mut p, 1, &[], false);
    p.run_command("m", 1, Command::Try, true, 1);
    let out = p.prepared(1, true, None, 2);
    assert_eq!(
        out.actions,
        vec![Action::CreateComment { number: 1, body: "@alice :lock: Merge conflict".to_string() }]
    );
    assert_eq!(status(&p, 1), &Status::InReview);
    let out = p.prepared(9, true, Some("C9".to_string()), 3);
    assert!(out.actions.is_empty());
}

#[test]
fn canary_is_followed_by_one_evaluation_of_the_queue() {
    let mut p = processor(true);
    open(&mut p, 1, &[], false);
    open(&mut p, 2, &[], false);
    p.run_command("m", 2, Command::Approve, true, 1);
    p.run_command("m", 1, Command::Try, true, 2);
    let out = p.prepared(1, true, Some("C1".to_string()), 3);
    assert!(matches!(out.next, Step::Prepare { number: 2, canary: false, .. }));
}

#[test]
fn priority_command_sets_the_priority() {
    let mut p = processor(true);
    open(&mut p, 1, &[], false);
    p.run_command("m", 1, Command::Priority(-4), true, 1);
    assert_eq!(p.pulls.get(1).unwrap().priority, -4);
    p.run_command("m", 1, Command::Approve, true, 2);
    assert_eq!(status(&p, 1), &Status::Queued { priority: -4, since: 2 });
    p.run_command("m", 1, Command::Priority(i64::MAX), true, 3);
    assert_eq!(status(&p, 1), &Status::Queued { priority: i64::MAX, since: 2 });
}

#[test]
fn cancel_stops_a_test_and_leaves_the_queue() {
    let mut p = processor(true);
    open(&mut p, 1, &[], false);
    open(&mut p, 2, &[], false);
    p.run_command("m", 1, Command::Approve, true, 1);
    p.run_command("m", 2, Command::Approve, true, 2);
    p.run_command("m", 2, Command::Cancel, true, 3);
    assert_eq!(status(&p, 2), &Status::Queued { priority: 0, since: 2 });
    p.prepared(1, false, Some("M1".to_string()), 4);
    let out = p.run_command("m", 1, Command::Cancel, true, 5);
    assert_eq!(status(&p, 1), &Status::InReview);
    assert!(matches!(out.next, Step::Prepare { number: 2, .. }));
}

#[test]
fn cancel_stops_a_canary() {
    let mut p = processor(true);
    open(&mut p, 1, &[], false);
    p.run_command("m", 1, Command::Try, true, 1);
    p.prepared(1, true, Some("C1".to_string()), 2);
    p.run_command("m", 1, Command::Cancel, true, 3);
    assert_eq!(status(&p, 1), &Status::InReview);
}

#[test]
fn ping_and_help_answer_with_a_comment() {
    let mut p = processor(true);
    open(&mut p, 1, &[], false);
    let out = p.run_command("m", 1, Command::Ping, true, 1);
    assert_eq!(
        out.actions,
        vec![Action::CreateComment { number: 1, body: ":heartbeat: pong".to_string() }]
    );
    let out = p.run_command("m", 1, Command::Help, true, 1);
    assert!(matches!(&out.actions[0], Action::CreateComment { number: 1, body }
        if body.starts_with("Commands:\n")));
    let out = p.run_command("m", 44, Command::Ping, true, 1);
    assert_eq!(
        out.actions,
        vec![Action::CreateComment { number: 44, body: ":heartbeat: pong".to_string() }]
    );
}

#[test]
fn commands_on_a_closed_pull_request_say_so() {
    let mut p = processor(true);
    for command in [
        Command::Approve,
        Command::Unapprove,
        Command::Retry,
        Command::Try,
        Command::Priority(2),
        Command::Cancel,
    ] {
        let out = p.run_command("bob", 3, command, true, 1);
        assert_eq!(out.next, Step::Done);
        assert_eq!(
            out.actions,
            vec![Action::CreateComment {
                number: 3,
                body: "@bob :exclamation: Unable to run the provided command on a closed PR"
                    .to_string()
            }]
        );
    }
    assert_eq!(p.pulls.len(), 0);
}

#[test]
fn context_gives_access_to_the_pull_request() {
    let mut p = processor(true);
    open(&mut p, 1, &[], false);
    {
        let mut ctx = p.command_context("dan", 1);
        assert_eq!(ctx.number(), 1);
        assert_eq!(ctx.sender(), "dan");
        assert_eq!(ctx.config().name(), "r");
        assert!(ctx.project_board().is_none());
        assert_eq!(ctx.git_repository().user(), "bors");
        assert!(ctx.github().calls.is_empty());
        assert_eq!(ctx.pr().map(|p| p.number), Some(1));
        ctx.pr_mut().unwrap().is_draft = true;
        ctx.create_pr_comment("hello");
        let mut active = ctx.active_pull_request_context().unwrap();
        assert_eq!(active.sender(), "dan");
        assert_eq!(active.config().owner(), "o");
        assert!(active.project_board().is_none());
        assert!(active.pr().is_draft);
        active.pr_mut().approved = true;
        active.set_label("bors-squash");
        active.remove_label("bors-squash");
        active.update_pr_status(Status::Queued { priority: 0, since: 3 });
        active.create_pr_comment("there");
        assert_eq!(active.github().calls.len(), 4);
    }
    let record = p.pulls.get(1).unwrap();
    assert!(record.is_draft);
    assert!(record.approved);
    assert!(!record.squash);
    assert_eq!(record.status, Status::Queued { priority: 0, since: 3 });
    assert_eq!(
        p.github.take(),
        vec![
            Action::CreateComment { number: 1, body: "hello".to_string() },
            Action::AddLabel { number: 1, label: "bors-squash".to_string() },
            Action::RemoveLabel { number: 1, label: "bors-squash".to_string() },
            Action::CreateComment { number: 1, body: "there".to_string() },
        ]
    );
}

#[test]
fn context_of_a_closed_pull_request_has_no_record() {
    let mut p = processor(true);
    {
        let mut ctx = p.command_context("dan", 5);
        assert!(ctx.pr().is_none());
        assert!(ctx.pr_mut().is_none());
        assert!(ctx.active_pull_request_context().is_none());
    }
    assert_eq!(
        p.github.take(),
        vec![Action::CreateComment {
            number: 5,
            body: "@dan :exclamation: Unable to run the provided command on a closed PR"
                .to_string()
        }]
    );
}
