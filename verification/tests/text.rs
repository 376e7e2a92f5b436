use bors::config::{ChecksConfig, Labels, Repo, RepoConfig};
use bors::state::{BuildResult, Conclusion};
use bors::text::{
    closed, conflict, decimal, failed, help, invalid_command, maintainer_edits, merge_failed,
    merge_message, pong, same_text, short_oid, testing, timed_out,
};

fn config(checks: &[&str]) -> RepoConfig {
    RepoConfig {
        repo: Repo::new("o".to_string(), "r".to_string()),
        require_review: true,
        maintainer_mode: false,
        checks: checks
            .iter()
            .map(|c| (c.to_string(), ChecksConfig { name: c.to_string() }))
            .collect(),
        status: Vec::new(),
        timeout_seconds: None,
        labels: Labels::default(),
    }
}

fn result(name: &str, url: &str, conclusion: Conclusion) -> BuildResult {
    BuildResult { check_name: name.to_string(), url: url.to_string(), conclusion }
}

#[test]
fn decimal_writes_digits() {
    assert_eq!(decimal(0), "0");
    assert_eq!(decimal(7), "7");
    assert_eq!(decimal(10), "10");
    assert_eq!(decimal(1234567890), "1234567890");
    assert_eq!(decimal(u64::MAX), "18446744073709551615");
}

#[test]
fn short_oid_keeps_seven_characters() {
    assert_eq!(short_oid("0123456789abcdef"), "0123456");
    assert_eq!(short_oid("0123456"), "0123456");
    assert_eq!(short_oid("M1"), "M1");
    assert_eq!(short_oid(""), "");
}

#[test]
fn same_text_compares_contents() {
    assert!(same_text("ci", "ci"));
    assert!(!same_text("ci", "ci2"));
    assert!(!same_text("", "ci"));
    assert!(same_text("", ""));
}

#[test]
fn fixed_texts() {
    assert_eq!(pong(), ":heartbeat: pong");
    assert_eq!(testing("0123456789"), "Testing 0123456");
    assert_eq!(conflict("alice"), "@alice :lock: Merge conflict");
    assert_eq!(merge_failed("not a fast forward"), ":boom: Merge failed: not a fast forward");
    assert_eq!(
        closed("bob"),
        "@bob :exclamation: Unable to run the provided command on a closed PR"
    );
    assert!(invalid_command().starts_with(":exclamation: Invalid command\n\nCommands:\n"));
    assert!(invalid_command().contains("`p=<int>`"));
}

#[test]
fn merge_message_cites_the_pull_request() {
    assert_eq!(merge_message(42, "Fix the frobnicator"), "Merge pull request #42\n\nFix the frobnicator");
}

#[test]
fn failure_report_lists_every_required_check() {
    let config = config(&["ci", "lint", "docs"]);
    let results = vec![
        result("ci", "https://ci.example/1", Conclusion::Failure),
        result("lint", "https://ci.example/2", Conclusion::Success),
        result("other", "https://ci.example/3", Conclusion::Failure),
    ];
    assert_eq!(
        failed(&config, &results),
        ":broken_heart: Test failed\n\n- ci: failure https://ci.example/1\n- lint: success\n- docs: pending\n"
    );
}

#[test]
fn report_shows_the_latest_result_of_a_check() {
    let config = config(&["ci"]);
    let results = vec![
        result("ci", "https://ci.example/1", Conclusion::Failure),
        result("ci", "https://ci.example/2", Conclusion::TimedOut),
    ];
    assert_eq!(
        timed_out(&config, &results),
        ":boom: Test timed out\n\n- ci: timed out https://ci.example/2\n"
    );
}

#[test]
fn maintainer_edits_text_points_to_the_setting() {
    let text = maintainer_edits();
    assert!(text.starts_with(
        ":exclamation: before this PR can be merged please make sure that you enable [\"Allow edits from maintainers\"](https://help.github.com/"
    ));
    assert!(text.ends_with("once its merged into the upstream branch"));
}

#[test]
fn help_lists_every_command() {
    let text = help();
    for command in ["`r+`", "`approve`", "`r-`", "`retry`", "`try`", "`p=<int>`", "`cancel`", "`ping`", "`help`"] {
        assert!(text.contains(command), "{} is missing", command);
    }
    assert_eq!(invalid_command(), format!(":exclamation: Invalid command\n\n{}", text));
}
