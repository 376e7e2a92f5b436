use bors::config::{ChecksConfig, Labels, Repo, RepoConfig};
use bors::event::{Branch, PullRequest};
use bors::forge::{Action, GithubClient};
use bors::state::{
    blocked, delete_label, has_label, insert_label, latest_result, BuildResult, Conclusion,
    PullRequestState, Status,
};

fn config() -> RepoConfig {
    RepoConfig {
        repo: Repo::new("o".to_string(), "r".to_string()),
        require_review: true,
        maintainer_mode: false,
        checks: vec![("app".to_string(), ChecksConfig { name: "ci".to_string() })],
        status: Vec::new(),
        timeout_seconds: None,
        labels: Labels {
            squash: None,
            high_priority: None,
            low_priority: None,
            do_not_merge: vec!["do-not-merge".to_string(), "wip".to_string()],
        },
    }
}

fn pull(number: u64, labels: &[&str]) -> PullRequest {
    PullRequest {
        number,
        title: "A change".to_string(),
        body: None,
        author: "alice".to_string(),
        head: Branch {
            git_ref: "feature".to_string(),
            sha: "AAAA".to_string(),
            repo: Some(Repo::new("alice".to_string(), "r".to_string())),
        },
        base: Branch {
            git_ref: "main".to_string(),
            sha: "BASE".to_string(),
            repo: Some(Repo::new("o".to_string(), "r".to_string())),
        },
        labels: labels.iter().map(|l| l.to_string()).collect(),
        draft: false,
        maintainer_can_modify: Some(true),
        merged: None,
    }
}

fn state(number: u64, labels: &[&str]) -> PullRequestState {
    PullRequestState::from_pull_request(&pull(number, labels), &config().labels)
}

#[test]
fn fresh_record_is_in_review_and_not_approved() {
    let s = state(7, &[]);
    assert_eq!(s.number, 7);
    assert_eq!(s.title, "A change");
    assert_eq!(s.body, "");
    assert_eq!(s.author, "alice");
    assert_eq!(s.head_oid, "AAAA");
    assert_eq!(s.head_repo, Some(Repo::new("alice".to_string(), "r".to_string())));
    assert_eq!(s.base_ref, "main");
    assert_eq!(s.base_oid, "BASE");
    assert!(!s.approved);
    assert!(!s.is_draft);
    assert!(s.maintainer_can_modify);
    assert_eq!(s.priority, 0);
    assert!(!s.squash);
    assert!(!s.tested);
    assert_eq!(s.status, Status::InReview);
}

#[test]
fn fresh_record_derives_squash_and_priority_from_labels() {
    assert_eq!(state(1, &["bors-high-priority"]).priority, 1);
    assert_eq!(state(1, &["bors-low-priority"]).priority, -1);
    assert_eq!(state(1, &["bors-low-priority", "bors-high-priority"]).priority, 1);
    assert!(state(1, &["bug", "bors-squash"]).squash);
    assert!(!state(1, &["bug"]).squash);
}

#[test]
fn label_helpers_behave_like_a_set() {
    let mut labels: Vec<String> = Vec::new();
    assert!(!has_label(&labels, "a"));
    insert_label(&mut labels, "a");
    insert_label(&mut labels, "b");
    insert_label(&mut labels, "a");
    assert_eq!(labels, vec!["a".to_string(), "b".to_string()]);
    assert!(has_label(&labels, "a"));
    delete_label(&mut labels, "a");
    assert!(!has_label(&labels, "a"));
    assert!(has_label(&labels, "b"));
    delete_label(&mut labels, "missing");
    assert_eq!(labels, vec!["b".to_string()]);
}

#[test]
fn delete_label_removes_every_occurrence() {
    let mut labels = vec!["x".to_string(), "y".to_string(), "x".to_string(), "x".to_string()];
    delete_label(&mut labels, "x");
    assert_eq!(labels, vec!["y".to_string()]);
}

#[test]
fn priority_labels_set_the_priority_and_high_wins() {
    let names = config().labels;
    let mut s = state(1, &[]);
    s.labeled("bors-low-priority", &names);
    assert_eq!(s.priority, -1);
    s.labeled("bors-high-priority", &names);
    assert_eq!(s.priority, 1);
    s.unlabeled("bors-high-priority", &names);
    assert_eq!(s.priority, -1);
    s.unlabeled("bors-low-priority", &names);
    assert_eq!(s.priority, 0);
}

#[test]
fn other_labels_leave_a_set_priority_alone() {
    let names = config().labels;
    let mut s = state(1, &[]);
    s.set_priority(5);
    s.labeled("bug", &names);
    assert_eq!(s.priority, 5);
    s.labeled("bors-squash", &names);
    assert!(s.squash);
    assert_eq!(s.priority, 5);
    s.unlabeled("bors-squash", &names);
    assert!(!s.squash);
}

#[test]
fn priority_of_a_queued_pull_request_moves_with_it() {
    let names = config().labels;
    let mut s = state(1, &[]);
    s.enqueue(10);
    assert_eq!(s.status, Status::Queued { priority: 0, since: 10 });
    s.set_priority(3);
    assert_eq!(s.status, Status::Queued { priority: 3, since: 10 });
    s.labeled("bors-high-priority", &names);
    assert_eq!(s.status, Status::Queued { priority: 1, since: 10 });
}

#[test]
fn eligibility_needs_approval_where_review_is_required() {
    let mut c = config();
    let mut s = state(1, &[]);
    assert!(!s.eligible(&c));
    s.approved = true;
    assert!(s.eligible(&c));
    s.approved = false;
    c.require_review = false;
    assert!(s.eligible(&c));
}

#[test]
fn drafts_and_blocked_pull_requests_are_not_eligible() {
    let c = config();
    let mut s = state(1, &[]);
    s.approved = true;
    s.is_draft = true;
    assert!(!s.eligible(&c));
    s.is_draft = false;
    s.labeled("wip", &c.labels);
    assert!(!s.eligible(&c));
    s.unlabeled("wip", &c.labels);
    assert!(s.eligible(&c));
    assert!(blocked("do-not-merge", &c.labels));
    assert!(!blocked("bug", &c.labels));
}

#[test]
fn going_back_to_review_drops_the_queue_labels() {
    let c = config();
    let mut github = GithubClient::new();
    let mut s = state(9, &["bug", "bors-squash", "bors-low-priority"]);
    s.enqueue(1);
    s.update_status(Status::InReview, &c, &mut github);
    assert_eq!(s.status, Status::InReview);
    assert_eq!(s.labels, vec!["bug".to_string()]);
    assert!(!s.squash);
    assert_eq!(s.priority, 0);
    assert_eq!(
        github.take(),
        vec![
            Action::RemoveLabel { number: 9, label: "bors-squash".to_string() },
            Action::RemoveLabel { number: 9, label: "bors-low-priority".to_string() },
        ]
    );
}

#[test]
fn other_statuses_keep_the_labels() {
    let c = config();
    let mut github = GithubClient::new();
    let mut s = state(9, &["bors-squash"]);
    s.update_status(Status::Queued { priority: 0, since: 4 }, &c, &mut github);
    assert_eq!(s.status, Status::Queued { priority: 0, since: 4 });
    assert!(s.squash);
    assert!(github.take().is_empty());
}

#[test]
fn new_head_sends_a_queued_pull_request_back() {
    let c = config();
    let mut github = GithubClient::new();
    let mut s = state(9, &[]);
    s.enqueue(1);
    s.update_head("BBBB".to_string(), &c, &mut github);
    assert_eq!(s.head_oid, "BBBB");
    assert_eq!(s.status, Status::InReview);
}

#[test]
fn new_head_leaves_a_canary_alone() {
    let c = config();
    let mut github = GithubClient::new();
    let mut s = state(9, &[]);
    s.status = Status::Canary { merge_oid: "C1".to_string(), results: Vec::new() };
    s.update_head("BBBB".to_string(), &c, &mut github);
    assert_eq!(s.head_oid, "BBBB");
    assert_eq!(s.status, Status::Canary { merge_oid: "C1".to_string(), results: Vec::new() });
}

#[test]
fn new_base_branch_sends_back_and_same_branch_does_not() {
    let c = config();
    let mut github = GithubClient::new();
    let mut s = state(9, &[]);
    s.enqueue(1);
    s.update_base_ref("main", "BASE2", &c, &mut github);
    assert_eq!(s.base_oid, "BASE2");
    assert_eq!(s.status, Status::Queued { priority: 0, since: 1 });
    s.update_base_ref("release", "REL", &c, &mut github);
    assert_eq!(s.base_ref, "release");
    assert_eq!(s.base_oid, "REL");
    assert_eq!(s.status, Status::InReview);
}

#[test]
fn build_results_attach_to_tests_only() {
    let mut s = state(9, &[]);
    s.add_build_result("ci", "u", Conclusion::Success);
    assert_eq!(s.status, Status::InReview);
    s.status = Status::Testing { merge_oid: "M".to_string(), started_at: 0, results: Vec::new() };
    s.add_build_result("ci", "u1", Conclusion::Failure);
    s.add_build_result("ci", "u2", Conclusion::Success);
    match &s.status {
        Status::Testing { results, .. } => {
            let latest = latest_result(results, "ci").unwrap();
            assert_eq!(latest.url, "u2");
            assert_eq!(latest.conclusion, Conclusion::Success);
            assert!(latest_result(results, "lint").is_none());
        }
        other => panic!("unexpected status {:?}", other),
    }
}

#[test]
fn duplicate_copies_every_field() {
    let mut s = state(9, &["bug"]);
    s.status = Status::Testing {
        merge_oid: "M".to_string(),
        started_at: 3,
        results: vec![BuildResult {
            check_name: "ci".to_string(),
            url: "u".to_string(),
            conclusion: Conclusion::Neutral,
        }],
    };
    assert_eq!(s.duplicate(), s);
}
