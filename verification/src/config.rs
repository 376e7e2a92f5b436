//! Settings of the bot and of each repository it serves.

use vstd::prelude::*;

verus! {

/// Seconds a candidate may stay under test when the repository sets no limit.
pub const DEFAULT_TIMEOUT_SECONDS: u64 = 7200;

/// Coordinates of a repository on the forge.
#[derive(Clone, Debug, PartialEq, Eq)]
pub struct Repo {
    pub owner: String,
    pub name: String,
}

impl Repo {
    pub fn new(owner: String, name: String) -> (r: Self)
        ensures
            r.owner == owner,
            r.name == name,
    {
        Repo { owner, name }
    }

    pub fn owner(&self) -> (r: &str)
        ensures
            r@ == self.owner@,
    {
        self.owner.as_str()
    }

    pub fn name(&self) -> (r: &str)
        ensures
            r@ == self.name@,
    {
        self.name.as_str()
    }

    /// Whether both coordinates spell the same text.
    pub open spec fn same(&self, other: &Repo) -> bool {
        self.owner@ == other.owner@ && self.name@ == other.name@
    }

    /// Whether `other` names the same repository.
    pub fn matches(&self, other: &Repo) -> (r: bool)
        ensures
            r == self.same(other),
    {
        self.owner == other.owner && self.name == other.name
    }

    pub fn duplicate(&self) -> (r: Self)
        ensures
            r == *self,
    {
        Repo { owner: self.owner.clone(), name: self.name.clone() }
    }
}

#[derive(Clone, Debug)]
pub struct Config {
    pub github: GithubConfig,
    pub git: GitConfig,
    pub repo: Vec<RepoConfig>,
}

#[derive(Clone, Debug)]
pub struct GitConfig {
    pub ssh_key_file: String,
    pub user: String,
    pub email: String,
}

#[derive(Clone, Debug)]
pub struct GithubConfig {
    pub github_api_token: String,
    pub webhook_secret: Option<String>,
}

impl GithubConfig {
    pub fn webhook_secret(&self) -> (r: Option<&str>)
        ensures
            r is Some == self.webhook_secret is Some,
            r matches Some(s) ==> s@ == self.webhook_secret->0@,
    {
        match &self.webhook_secret {
            Some(s) => Some(s.as_str()),
            None => None,
        }
    }
}

/// A check run that must succeed, under the name its app reports.
#[derive(Clone, Debug)]
pub struct ChecksConfig {
    pub name: String,
}

/// A commit status that must succeed, under its context.
#[derive(Clone, Debug)]
pub struct StatusConfig {
    pub context: String,
}

#[derive(Clone, Debug)]
pub struct RepoConfig {
    /// The repository these settings are for.
    pub repo: Repo,
    /// Whether an approving review is needed before a pull request may be queued.
    pub require_review: bool,
    /// Whether the bot updates pull request branches in place.
    pub maintainer_mode: bool,
    /// Required check runs, each under the id of the app that reports it.
    pub checks: Vec<(String, ChecksConfig)>,
    /// Required commit statuses, each under the id of the app that reports it.
    pub status: Vec<(String, StatusConfig)>,
    /// Limit for one test run, in seconds.
    pub timeout_seconds: Option<u64>,
    pub labels: Labels,
}

impl RepoConfig {
    /// The names of everything that must report success, check runs first,
    /// then commit statuses, each group in the order of the settings.
    pub open spec fn required_checks(&self) -> Seq<Seq<char>> {
        Seq::new(self.checks@.len(), |i: int| self.checks@[i].1.name@) + Seq::new(
            self.status@.len(),
            |i: int| self.status@[i].1.context@,
        )
    }

    /// The limit for one test run, in seconds: two hours unless set.
    pub open spec fn timeout_secs(&self) -> u64 {
        match self.timeout_seconds {
            Some(s) => s,
            None => DEFAULT_TIMEOUT_SECONDS,
        }
    }

    pub fn repo(&self) -> (r: &Repo)
        ensures
            *r == self.repo,
    {
        &self.repo
    }

    pub fn owner(&self) -> (r: &str)
        ensures
            r@ == self.repo.owner@,
    {
        self.repo.owner()
    }

    pub fn name(&self) -> (r: &str)
        ensures
            r@ == self.repo.name@,
    {
        self.repo.name()
    }

    pub fn require_review(&self) -> (r: bool)
        ensures
            r == self.require_review,
    {
        self.require_review
    }

    pub fn maintainer_mode(&self) -> (r: bool)
        ensures
            r == self.maintainer_mode,
    {
        self.maintainer_mode
    }

    /// The names of everything that must report success.
    pub fn checks(&self) -> (r: Vec<&str>)
        ensures
            r@.len() == self.required_checks().len(),
            forall|i: int| 0 <= i < r@.len() ==> r@[i]@ == #[trigger] self.required_checks()[i],
    {
        let mut names: Vec<&str> = Vec::new();
        let mut i: usize = 0;
        while i < self.checks.len()
            invariant
                i <= self.checks.len(),
                names@.len() == i,
                forall|k: int| 0 <= k < i ==> names@[k]@ == #[trigger] self.checks@[k].1.name@,
            decreases self.checks.len() - i,
        {
            names.push(self.checks[i].1.name.as_str());
            i = i + 1;
        }
        let mut j: usize = 0;
        while j < self.status.len()
            invariant
                j <= self.status.len(),
                names@.len() == self.checks.len() + j,
                forall|k: int|
                    0 <= k < self.checks.len() ==> names@[k]@ == #[trigger] self.checks@[k].1.name@,
                forall|k: int|
                    0 <= k < j ==> names@[self.checks.len() + k]@
                        == #[trigger] self.status@[k].1.context@,
            decreases self.status.len() - j,
        {
            names.push(self.status[j].1.context.as_str());
            j = j + 1;
        }
        names
    }

    /// The limit for one test run, in seconds.
    pub fn timeout(&self) -> (r: u64)
        ensures
            r == self.timeout_secs(),
    {
        match self.timeout_seconds {
            Some(s) => s,
            None => DEFAULT_TIMEOUT_SECONDS,
        }
    }

    pub fn labels(&self) -> (r: &Labels)
        ensures
            *r == self.labels,
    {
        &self.labels
    }
}

/// Names of the labels the bot gives a meaning to.
#[derive(Clone, Debug)]
pub struct Labels {
    pub squash: Option<String>,
    pub high_priority: Option<String>,
    pub low_priority: Option<String>,
    /// Labels that keep a pull request out of the queue while it carries one.
    pub do_not_merge: Vec<String>,
}

impl Labels {
    /// The label that asks for a squashed merge.
    pub open spec fn squash_name(&self) -> Seq<char> {
        match self.squash {
            Some(s) => s@,
            None => "bors-squash"@,
        }
    }

    /// The label that raises the priority.
    pub open spec fn high_priority_name(&self) -> Seq<char> {
        match self.high_priority {
            Some(s) => s@,
            None => "bors-high-priority"@,
        }
    }

    /// The label that lowers the priority.
    pub open spec fn low_priority_name(&self) -> Seq<char> {
        match self.low_priority {
            Some(s) => s@,
            None => "bors-low-priority"@,
        }
    }

    /// The three names, in the order in which `all` gives them.
    pub open spec fn all_names(&self) -> Seq<Seq<char>> {
        seq![self.squash_name(), self.high_priority_name(), self.low_priority_name()]
    }

    /// Whether `label` is one of the names that block merging.
    pub open spec fn blocks(&self, label: Seq<char>) -> bool {
        exists|i: int| 0 <= i < self.do_not_merge@.len() && self.do_not_merge@[i]@ == label
    }

    pub fn squash(&self) -> (r: &str)
        ensures
            r@ == self.squash_name(),
    {
        match &self.squash {
            Some(s) => s.as_str(),
            None => "bors-squash",
        }
    }

    pub fn high_priority(&self) -> (r: &str)
        ensures
            r@ == self.high_priority_name(),
    {
        match &self.high_priority {
            Some(s) => s.as_str(),
            None => "bors-high-priority",
        }
    }

    pub fn low_priority(&self) -> (r: &str)
        ensures
            r@ == self.low_priority_name(),
    {
        match &self.low_priority {
            Some(s) => s.as_str(),
            None => "bors-low-priority",
        }
    }

    /// The three labels of the queue: squash, high priority, low priority.
    pub fn all(&self) -> (r: Vec<&str>)
        ensures
            r@.len() == 3,
            r@[0]@ == self.squash_name(),
            r@[1]@ == self.high_priority_name(),
            r@[2]@ == self.low_priority_name(),
    {
        let mut names: Vec<&str> = Vec::new();
        names.push(self.squash());
        names.push(self.high_priority());
        names.push(self.low_priority());
        names
    }
}

impl Default for Labels {
    fn default() -> (r: Self)
        ensures
            r.squash is None,
            r.high_priority is None,
            r.low_priority is None,
            r.do_not_merge@.len() == 0,
    {
        Labels { squash: None, high_priority: None, low_priority: None, do_not_merge: Vec::new() }
    }
}

} // verus!
