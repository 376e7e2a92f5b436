use bors::config::{
    ChecksConfig, GithubConfig, Labels, Repo, RepoConfig, StatusConfig, DEFAULT_TIMEOUT_SECONDS,
};

fn repo_config() -> RepoConfig {
    RepoConfig {
        repo: Repo::new("rust-lang".to_string(), "cargo".to_string()),
        require_review: true,
        maintainer_mode: false,
        checks: vec![
            ("travis".to_string(), ChecksConfig { name: "ci".to_string() }),
            ("actions".to_string(), ChecksConfig { name: "lint".to_string() }),
        ],
        status: vec![("circle".to_string(), StatusConfig { context: "deploy/preview".to_string() })],
        timeout_seconds: None,
        labels: Labels::default(),
    }
}

#[test]
fn repo_getters_return_the_fields() {
    let config = repo_config();
    assert_eq!(config.owner(), "rust-lang");
    assert_eq!(config.name(), "cargo");
    assert_eq!(config.repo().owner(), "rust-lang");
    assert_eq!(config.repo().name(), "cargo");
    assert_eq!(config.repo(), &Repo::new("rust-lang".to_string(), "cargo".to_string()));
    assert!(config.require_review());
    assert!(!config.maintainer_mode());
}

#[test]
fn checks_lists_check_runs_then_statuses() {
    let config = repo_config();
    assert_eq!(config.checks(), vec!["ci", "lint", "deploy/preview"]);
}

#[test]
fn checks_of_a_repository_without_any_is_empty() {
    let mut config = repo_config();
    config.checks = Vec::new();
    config.status = Vec::new();
    assert!(config.checks().is_empty());
}

#[test]
fn timeout_defaults_to_two_hours() {
    let config = repo_config();
    assert_eq!(DEFAULT_TIMEOUT_SECONDS, 7200);
    assert_eq!(config.timeout(), 7200);
}

#[test]
fn timeout_follows_the_setting() {
    let mut config = repo_config();
    config.timeout_seconds = Some(90);
    assert_eq!(config.timeout(), 90);
    config.timeout_seconds = Some(0);
    assert_eq!(config.timeout(), 0);
}

#[test]
fn labels_default_names() {
    let labels = Labels::default();
    assert_eq!(labels.squash(), "bors-squash");
    assert_eq!(labels.high_priority(), "bors-high-priority");
    assert_eq!(labels.low_priority(), "bors-low-priority");
    assert_eq!(labels.all(), vec!["bors-squash", "bors-high-priority", "bors-low-priority"]);
    assert!(labels.do_not_merge.is_empty());
}

#[test]
fn labels_configured_names() {
    let labels = Labels {
        squash: Some("squash-me".to_string()),
        high_priority: None,
        low_priority: Some("later".to_string()),
        do_not_merge: vec!["wip".to_string()],
    };
    assert_eq!(labels.squash(), "squash-me");
    assert_eq!(labels.high_priority(), "bors-high-priority");
    assert_eq!(labels.low_priority(), "later");
    assert_eq!(labels.all(), vec!["squash-me", "bors-high-priority", "later"]);
    assert_eq!(repo_config().labels().squash(), "bors-squash");
}

#[test]
fn webhook_secret_is_optional() {
    let with = GithubConfig {
        github_api_token: "t0ken".to_string(),
        webhook_secret: Some("hush".to_string()),
    };
    let without = GithubConfig { github_api_token: "t0ken".to_string(), webhook_secret: None };
    assert_eq!(with.webhook_secret(), Some("hush"));
    assert_eq!(without.webhook_secret(), None);
}

#[test]
fn repos_match_by_owner_and_name() {
    let a = Repo::new("o".to_string(), "n".to_string());
    assert!(a.matches(&Repo::new("o".to_string(), "n".to_string())));
    assert!(!a.matches(&Repo::new("o".to_string(), "m".to_string())));
    assert!(!a.matches(&Repo::new("p".to_string(), "n".to_string())));
    assert_eq!(a.duplicate(), a);
}
