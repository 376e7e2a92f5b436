use bors::config::{ChecksConfig, Labels, Repo, RepoConfig, StatusConfig};
use bors::event::{Branch, PullRequest};
use bors::forge::{Action, GithubClient};
use bors::queue::{evaluate, find_merge_oid, is_usable, select, InFlight, MergeQueue, Verdict};
use bors::state::{BuildResult, Conclusion, PullRequestState, Status};
use bors::step::Step;
use bors::table::PullTable;

fn config(checks: &[&str]) -> RepoConfig {
    RepoConfig {
        repo: Repo::new("o".to_string(), "r".to_string()),
        require_review: true,
        maintainer_mode: false,
        checks: checks
            .iter()
            .map(|c| (c.to_string(), ChecksConfig { name: c.to_string() }))
            .collect(),
        status: vec![("s".to_string(), StatusConfig { context: "status/ok".to_string() })],
        timeout_seconds: Some(100),
        labels: Labels::default(),
    }
}

fn record(number: u64) -> PullRequestState {
    let pull = PullRequest {
        number,
        title: "T".to_string(),
        body: Some("B".to_string()),
        author: "alice".to_string(),
        head: Branch { git_ref: "f".to_string(), sha: "HEAD".to_string(), repo: None },
        base: Branch { git_ref: "main".to_string(), sha: "BASE".to_string(), repo: None },
        labels: Vec::new(),
        draft: false,
        maintainer_can_modify: None,
        merged: None,
    };
    let mut state = PullRequestState::from_pull_request(&pull, &Labels::default());
    state.approved = true;
    state
}

fn queued(number: u64, priority: i64, since: u64) -> PullRequestState {
    let mut state = record(number);
    state.priority = priority;
    state.status = Status::Queued { priority, since };
    state
}

fn result(name: &str, conclusion: Conclusion) -> BuildResult {
    BuildResult { check_name: name.to_string(), url: format!("https://ci/{}", name), conclusion }
}

fn table(records: Vec<PullRequestState>) -> PullTable {
    let mut table = PullTable::new();
    for r in records {
        table.insert(r);
    }
    table
}

#[test]
fn verdict_runs_until_every_check_reported() {
    let c = config(&["ci"]);
    assert_eq!(evaluate(&c, &Vec::new(), 0, 50), Verdict::Running);
    assert_eq!(evaluate(&c, &vec![result("ci", Conclusion::Success)], 0, 50), Verdict::Running);
    assert_eq!(
        evaluate(
            &c,
            &vec![result("ci", Conclusion::Success), result("status/ok", Conclusion::Success)],
            0,
            50
        ),
        Verdict::Passed
    );
}

#[test]
fn verdict_fails_on_any_conclusion_but_success() {
    let c = config(&["ci"]);
    for conclusion in [
        Conclusion::Failure,
        Conclusion::Neutral,
        Conclusion::Cancelled,
        Conclusion::TimedOut,
        Conclusion::ActionRequired,
        Conclusion::Skipped,
    ] {
        assert_eq!(evaluate(&c, &vec![result("ci", conclusion)], 0, 1), Verdict::Failed);
    }
}

#[test]
fn verdict_goes_by_the_latest_result_and_ignores_other_checks() {
    let c = config(&["ci"]);
    let results = vec![
        result("ci", Conclusion::Failure),
        result("unrelated", Conclusion::Failure),
        result("ci", Conclusion::Success),
        result("status/ok", Conclusion::Success),
    ];
    assert_eq!(evaluate(&c, &results, 0, 1), Verdict::Passed);
}

#[test]
fn verdict_failure_wins_over_timeout() {
    let c = config(&["ci"]);
    assert_eq!(evaluate(&c, &vec![result("ci", Conclusion::Failure)], 0, 1000), Verdict::Failed);
}

#[test]
fn verdict_times_out_strictly_after_the_limit() {
    let c = config(&["ci"]);
    assert_eq!(evaluate(&c, &Vec::new(), 10, 110), Verdict::Running);
    assert_eq!(evaluate(&c, &Vec::new(), 10, 111), Verdict::TimedOut);
    assert_eq!(evaluate(&c, &Vec::new(), 10, 5), Verdict::Running);
}

#[test]
fn verdict_without_required_checks_passes() {
    let mut c = config(&[]);
    c.status = Vec::new();
    assert_eq!(evaluate(&c, &Vec::new(), 0, 0), Verdict::Passed);
}

#[test]
fn select_prefers_priority_then_age_then_number() {
    let c = config(&["ci"]);
    assert_eq!(select(&table(vec![]), &c), None);
    assert_eq!(select(&table(vec![queued(1, 0, 5), queued(2, 1, 9)]), &c), Some(2));
    assert_eq!(select(&table(vec![queued(1, 0, 5), queued(2, 0, 4)]), &c), Some(2));
    assert_eq!(select(&table(vec![queued(3, 0, 5), queued(2, 0, 5)]), &c), Some(2));
    assert_eq!(select(&table(vec![queued(1, -1, 1), queued(2, 0, 9), queued(3, 0, 8)]), &c), Some(3));
}

#[test]
fn select_skips_what_may_not_be_tested() {
    let c = config(&["ci"]);
    let mut draft = queued(1, 5, 0);
    draft.is_draft = true;
    let mut unapproved = queued(2, 4, 0);
    unapproved.approved = false;
    let in_review = record(3);
    assert_eq!(select(&table(vec![draft, unapproved, in_review]), &c), None);
    let mut draft = queued(1, 5, 0);
    draft.is_draft = true;
    assert_eq!(select(&table(vec![draft, queued(4, -3, 7)]), &c), Some(4));
}

#[test]
fn merge_commits_are_found_by_id() {
    let mut testing = record(1);
    testing.status =
        Status::Testing { merge_oid: "M1".to_string(), started_at: 0, results: Vec::new() };
    let mut canary = record(2);
    canary.status = Status::Canary { merge_oid: "C1".to_string(), results: Vec::new() };
    let t = table(vec![record(3), testing, canary]);
    assert_eq!(find_merge_oid(&t, "M1"), Some(1));
    assert_eq!(find_merge_oid(&t, "C1"), Some(2));
    assert_eq!(find_merge_oid(&t, "HEAD"), None);
    assert!(is_usable(&t, &Some("M2".to_string())));
    assert!(!is_usable(&t, &Some("M1".to_string())));
    assert!(!is_usable(&t, &Some("C1".to_string())));
    assert!(!is_usable(&t, &Some(String::new())));
    assert!(!is_usable(&t, &None));
}

#[test]
fn tick_on_an_empty_queue_rests() {
    let c = config(&["ci"]);
    let mut github = GithubClient::new();
    let mut pulls = table(vec![record(1)]);
    let mut queue = MergeQueue::new();
    assert_eq!(queue.process_queue(&c, &mut github, &mut pulls, 0), Step::Done);
    assert_eq!(queue.head, None);
    assert!(github.take().is_empty());
}

#[test]
fn tick_asks_for_the_merge_commit_of_the_next_candidate() {
    let c = config(&["ci"]);
    let mut github = GithubClient::new();
    let mut pulls = table(vec![queued(1, 0, 5), queued(2, 1, 9)]);
    let mut queue = MergeQueue::new();
    let step = queue.process_queue(&c, &mut github, &mut pulls, 0);
    assert_eq!(
        step,
        Step::Prepare {
            number: 2,
            head_oid: "HEAD".to_string(),
            base_ref: "main".to_string(),
            base_oid: "BASE".to_string(),
            squash: false,
            author: "alice".to_string(),
            message: "Merge pull request #2\n\nT".to_string(),
            canary: false,
        }
    );
    assert_eq!(pulls.get(2).unwrap().status, Status::Queued { priority: 1, since: 9 });
}

#[test]
fn prepared_starts_the_test_and_sets_the_deadline() {
    let c = config(&["ci"]);
    let mut github = GithubClient::new();
    let mut pulls = table(vec![queued(1, 0, 5)]);
    let mut queue = MergeQueue::new();
    let step = queue.prepared(&c, &mut github, &mut pulls, 1, Some("0123456789".to_string()), 40);
    assert_eq!(step, Step::Done);
    assert_eq!(queue.head, Some(InFlight { number: 1, deadline: 140 }));
    assert_eq!(
        pulls.get(1).unwrap().status,
        Status::Testing { merge_oid: "0123456789".to_string(), started_at: 40, results: Vec::new() }
    );
    assert_eq!(
        github.take(),
        vec![Action::CreateComment { number: 1, body: "Testing 0123456".to_string() }]
    );
}

#[test]
fn deadline_stops_at_the_end_of_time() {
    let c = config(&["ci"]);
    let mut github = GithubClient::new();
    let mut pulls = table(vec![queued(1, 0, 5)]);
    let mut queue = MergeQueue::new();
    queue.prepared(&c, &mut github, &mut pulls, 1, Some("M".to_string()), u64::MAX - 3);
    assert_eq!(queue.head, Some(InFlight { number: 1, deadline: u64::MAX }));
}

#[test]
fn prepared_with_a_conflict_moves_on_to_the_next_candidate() {
    let c = config(&["ci"]);
    let mut github = GithubClient::new();
    let mut pulls = table(vec![queued(1, 0, 5), queued(2, 0, 6)]);
    let mut queue = MergeQueue::new();
    let step = queue.prepared(&c, &mut github, &mut pulls, 1, None, 40);
    assert!(matches!(step, Step::Prepare { number: 2, canary: false, .. }));
    assert_eq!(pulls.get(1).unwrap().status, Status::InReview);
    assert_eq!(queue.head, None);
    assert_eq!(
        github.take(),
        vec![Action::CreateComment {
            number: 1,
            body: "@alice :lock: Merge conflict".to_string()
        }]
    );
}

#[test]
fn prepared_for_anything_but_the_next_candidate_is_ignored() {
    let c = config(&["ci"]);
    let mut github = GithubClient::new();
    let mut pulls = table(vec![queued(1, 0, 5), queued(2, 0, 6), record(3)]);
    let mut queue = MergeQueue::new();
    assert_eq!(queue.prepared(&c, &mut github, &mut pulls, 2, Some("M".to_string()), 1), Step::Done);
    assert_eq!(queue.prepared(&c, &mut github, &mut pulls, 3, Some("M".to_string()), 1), Step::Done);
    assert_eq!(queue.prepared(&c, &mut github, &mut pulls, 9, Some("M".to_string()), 1), Step::Done);
    assert_eq!(pulls.get(2).unwrap().status, Status::Queued { priority: 0, since: 6 });
    assert_eq!(pulls.get(3).unwrap().status, Status::InReview);
    assert_eq!(queue.head, None);
    assert!(github.take().is_empty());
}

#[test]
fn prepared_while_a_test_runs_is_ignored() {
    let c = config(&["ci"]);
    let mut github = GithubClient::new();
    let mut pulls = table(vec![queued(1, 0, 5), queued(2, 0, 6)]);
    let mut queue = MergeQueue::new();
    queue.prepared(&c, &mut github, &mut pulls, 1, Some("M1".to_string()), 1);
    github.take();
    assert_eq!(queue.prepared(&c, &mut github, &mut pulls, 2, Some("M2".to_string()), 2), Step::Done);
    assert_eq!(pulls.get(2).unwrap().status, Status::Queued { priority: 0, since: 6 });
    assert_eq!(queue.head, Some(InFlight { number: 1, deadline: 101 }));
}

#[test]
fn a_merge_commit_that_is_taken_counts_as_a_failed_merge() {
    let c = config(&["ci"]);
    let mut github = GithubClient::new();
    let mut canary = record(5);
    canary.status = Status::Canary { merge_oid: "SAME".to_string(), results: Vec::new() };
    let mut pulls = table(vec![queued(1, 0, 5), canary]);
    let mut queue = MergeQueue::new();
    let step = queue.prepared(&c, &mut github, &mut pulls, 1, Some("SAME".to_string()), 1);
    assert_eq!(step, Step::Done);
    assert_eq!(pulls.get(1).unwrap().status, Status::InReview);
    assert_eq!(queue.head, None);
}

#[test]
fn landed_takes_the_pull_request_out_and_moves_on() {
    let c = config(&["ci"]);
    let mut github = GithubClient::new();
    let mut pulls = table(vec![queued(1, 0, 5), queued(2, 0, 6)]);
    let mut queue = MergeQueue::new();
    queue.prepared(&c, &mut github, &mut pulls, 1, Some("M1".to_string()), 1);
    github.take();
    let step = queue.landed(&c, &mut github, &mut pulls, 1, None);
    assert!(matches!(step, Step::Prepare { number: 2, .. }));
    assert!(pulls.get(1).is_none());
    assert_eq!(queue.head, None);
    assert!(github.take().is_empty());
}

#[test]
fn landed_with_an_error_sends_back_to_review() {
    let c = config(&["ci"]);
    let mut github = GithubClient::new();
    let mut pulls = table(vec![queued(1, 0, 5)]);
    let mut queue = MergeQueue::new();
    queue.prepared(&c, &mut github, &mut pulls, 1, Some("M1".to_string()), 1);
    github.take();
    let step = queue.landed(&c, &mut github, &mut pulls, 1, Some("branch is protected"));
    assert_eq!(step, Step::Done);
    assert_eq!(pulls.get(1).unwrap().status, Status::InReview);
    assert_eq!(
        github.take(),
        vec![Action::CreateComment {
            number: 1,
            body: ":boom: Merge failed: branch is protected".to_string()
        }]
    );
}

#[test]
fn landed_for_a_pull_request_that_is_not_under_test_is_ignored() {
    let c = config(&["ci"]);
    let mut github = GithubClient::new();
    let mut pulls = table(vec![queued(1, 0, 5), queued(2, 0, 6)]);
    let mut queue = MergeQueue::new();
    assert_eq!(queue.landed(&c, &mut github, &mut pulls, 1, None), Step::Done);
    assert!(pulls.get(1).is_some());
    queue.prepared(&c, &mut github, &mut pulls, 1, Some("M1".to_string()), 1);
    assert_eq!(queue.landed(&c, &mut github, &mut pulls, 2, None), Step::Done);
    assert!(pulls.get(2).is_some());
    assert_eq!(queue.head, Some(InFlight { number: 1, deadline: 101 }));
}

#[test]
fn tick_forgets_a_candidate_that_left_the_table() {
    let c = config(&["ci"]);
    let mut github = GithubClient::new();
    let mut pulls = table(vec![queued(1, 0, 5), queued(2, 0, 6)]);
    let mut queue = MergeQueue::new();
    queue.prepared(&c, &mut github, &mut pulls, 1, Some("M1".to_string()), 1);
    pulls.remove(1);
    let step = queue.process_queue(&c, &mut github, &mut pulls, 2);
    assert!(matches!(step, Step::Prepare { number: 2, .. }));
    assert_eq!(queue.head, None);
}

#[test]
fn reset_forgets_the_candidate() {
    let mut queue = MergeQueue { head: Some(InFlight { number: 4, deadline: 9 }) };
    queue.reset();
    assert_eq!(queue, MergeQueue::new());
}

#[test]
fn table_keeps_one_record_per_number() {
    let mut t = PullTable::new();
    assert_eq!(t.len(), 0);
    assert!(!t.insert(queued(1, 0, 1)));
    assert!(!t.insert(queued(2, 0, 2)));
    assert!(t.insert(queued(1, 7, 3)));
    assert_eq!(t.len(), 2);
    assert!(t.contains(1));
    assert_eq!(t.position(2), Some(1));
    assert_eq!(t.get(1).unwrap().priority, 7);
    assert_eq!(t.duplicate(), t);
    assert_eq!(t.remove(1).map(|p| p.number), Some(1));
    assert!(t.remove(1).is_none());
    assert!(!t.contains(1));
    t.clear();
    assert_eq!(t.len(), 0);
}
