//! What the bot remembers of one pull request.

use crate::config::{Labels, Repo, RepoConfig};
use crate::event::PullRequest;
use crate::forge::{ActionView, GithubClient};
use crate::text::same_text;
use vstd::prelude::*;

verus! {

/// How a finished check ended.
#[derive(Clone, Copy, Debug, PartialEq, Eq, Structural)]
pub enum Conclusion {
    Success,
    Failure,
    Neutral,
    Cancelled,
    TimedOut,
    ActionRequired,
    Skipped,
}

/// The outcome of one check on a merge commit.
#[derive(Debug, PartialEq, Eq)]
pub struct BuildResult {
    pub check_name: String,
    pub url: String,
    pub conclusion: Conclusion,
}

pub struct BuildResultView {
    pub check_name: Seq<char>,
    pub url: Seq<char>,
    pub conclusion: Conclusion,
}

impl View for BuildResult {
    type V = BuildResultView;

    open spec fn view(&self) -> BuildResultView {
        BuildResultView {
            check_name: self.check_name@,
            url: self.url@,
            conclusion: self.conclusion,
        }
    }
}

impl BuildResult {
    pub fn duplicate(&self) -> (r: Self)
        ensures
            r == *self,
    {
        BuildResult {
            check_name: self.check_name.clone(),
            url: self.url.clone(),
            conclusion: self.conclusion,
        }
    }
}

/// The most recent result under each check name, where `s` lists results in
/// the order in which they came in.
pub open spec fn results_of(s: Seq<BuildResult>) -> Map<Seq<char>, BuildResultView>
    decreases s.len(),
{
    if s.len() == 0 {
        Map::empty()
    } else {
        results_of(s.drop_last()).insert(s.last().check_name@, s.last()@)
    }
}

/// A result that comes in is the most recent one under its check name.
pub proof fn lemma_results_push(s: Seq<BuildResult>, r: BuildResult)
    ensures
        results_of(s.push(r)) == results_of(s).insert(r.check_name@, r@),
{
    assert(s.push(r).drop_last() =~= s);
}

/// The most recent result reported under `name`, if there is one.
pub fn latest_result<'a>(results: &'a Vec<BuildResult>, name: &str) -> (r: Option<&'a BuildResult>)
    ensures
        match r {
            Some(b) => results_of(results@).contains_key(name@) && results_of(results@)[name@]
                == b@,
            None => !results_of(results@).contains_key(name@),
        },
{
    let mut i: usize = results.len();
    assert(results@.take(i as int) =~= results@);
    while i > 0
        invariant
            i <= results.len(),
            results_of(results@).contains_key(name@) == results_of(
                results@.take(i as int),
            ).contains_key(name@),
            results_of(results@).contains_key(name@) ==> results_of(results@)[name@] == results_of(
                results@.take(i as int),
            )[name@],
        decreases i,
    {
        proof {
            let t = results@.take(i as int);
            assert(t.drop_last() =~= results@.take(i - 1));
            assert(t.last() == results@[i - 1]);
        }
        i = i - 1;
        if same_text(results[i].check_name.as_str(), name) {
            return Some(&results[i]);
        }
    }
    None
}

/// The labels in `s`, each as its text.
pub open spec fn label_set(s: Seq<String>) -> Set<Seq<char>> {
    Set::new(|l: Seq<char>| exists|i: int| 0 <= i < s.len() && s[i]@ == l)
}

/// Whether `label` is among `labels`.
pub fn has_label(labels: &Vec<String>, label: &str) -> (r: bool)
    ensures
        r == label_set(labels@).contains(label@),
{
    let mut i: usize = 0;
    while i < labels.len()
        invariant
            i <= labels.len(),
            forall|k: int| 0 <= k < i ==> labels@[k]@ != label@,
        decreases labels.len() - i,
    {
        if same_text(labels[i].as_str(), label) {
            return true;
        }
        i = i + 1;
    }
    false
}

/// Adds `label` to `labels` unless it is there.
pub fn insert_label(labels: &mut Vec<String>, label: &str)
    ensures
        label_set(final(labels)@) == label_set(old(labels)@).insert(label@),
{
    if !has_label(labels, label) {
        labels.push(String::from_str(label));
        assert forall|l: Seq<char>|
            label_set(labels@).contains(l) == label_set(old(labels)@).insert(label@).contains(
                l,
            ) by {
            if label_set(labels@).contains(l) {
                let i = choose|i: int| 0 <= i < labels@.len() && labels@[i]@ == l;
                if i < old(labels)@.len() {
                    assert(old(labels)@[i]@ == l);
                }
            }
            if label_set(old(labels)@).contains(l) {
                let i = choose|i: int| 0 <= i < old(labels)@.len() && old(labels)@[i]@ == l;
                assert(labels@[i]@ == l);
            }
            if l == label@ {
                assert(labels@[labels@.len() - 1]@ == l);
            }
        }
    }
    assert(label_set(labels@) =~= label_set(old(labels)@).insert(label@));
}

/// Takes every `label` out of `labels`.
pub fn delete_label(labels: &mut Vec<String>, label: &str)
    ensures
        label_set(final(labels)@) == label_set(old(labels)@).remove(label@),
{
    let mut i: usize = 0;
    while i < labels.len()
        invariant
            i <= labels.len(),
            forall|k: int| 0 <= k < i ==> labels@[k]@ != label@,
            label_set(labels@).remove(label@) == label_set(old(labels)@).remove(label@),
        decreases labels.len() - i,
    {
        if same_text(labels[i].as_str(), label) {
            let ghost before = labels@;
            labels.remove(i);
            assert forall|l: Seq<char>|
                label_set(labels@).remove(label@).contains(l) == label_set(before).remove(
                    label@,
                ).contains(l) by {
                if l != label@ {
                    if label_set(labels@).contains(l) {
                        let k = choose|k: int| 0 <= k < labels@.len() && labels@[k]@ == l;
                        if k < i {
                            assert(before[k]@ == l);
                        } else {
                            assert(before[k + 1]@ == l);
                        }
                    }
                    if label_set(before).contains(l) {
                        let k = choose|k: int| 0 <= k < before.len() && before[k]@ == l;
                        if k < i {
                            assert(labels@[k]@ == l);
                        } else {
                            assert(labels@[k - 1]@ == l);
                        }
                    }
                }
            }
            assert(label_set(labels@).remove(label@) =~= label_set(before).remove(label@));
        } else {
            i = i + 1;
        }
    }
    assert(label_set(labels@) =~= label_set(labels@).remove(label@));
}


pub fn copy_labels(labels: &Vec<String>) -> (r: Vec<String>)
    ensures
        r@ == labels@,
{
    let mut copy: Vec<String> = Vec::new();
    let mut i: usize = 0;
    while i < labels.len()
        invariant
            i <= labels.len(),
            copy@ == labels@.take(i as int),
        decreases labels.len() - i,
    {
        copy.push(labels[i].clone());
        assert(copy@ =~= labels@.take(i + 1));
        i = i + 1;
    }
    assert(labels@.take(labels@.len() as int) =~= labels@);
    copy
}

pub fn copy_results(results: &Vec<BuildResult>) -> (r: Vec<BuildResult>)
    ensures
        r@ == results@,
{
    let mut copy: Vec<BuildResult> = Vec::new();
    let mut i: usize = 0;
    while i < results.len()
        invariant
            i <= results.len(),
            copy@ == results@.take(i as int),
        decreases results.len() - i,
    {
        copy.push(results[i].duplicate());
        assert(copy@ =~= results@.take(i + 1));
        i = i + 1;
    }
    assert(results@.take(results@.len() as int) =~= results@);
    copy
}

/// Where a pull request stands between review and merge.
#[derive(Debug, PartialEq, Eq)]
pub enum Status {
    /// Waiting for review, or sent back to it.
    InReview,
    /// Waiting for its turn to be tested, since the instant `since`.
    Queued { priority: i64, since: u64 },
    /// The merge commit `merge_oid` is under test, to be merged on success.
    Testing { merge_oid: String, started_at: u64, results: Vec<BuildResult> },
    /// The merge commit `merge_oid` is under test, for its results only.
    Canary { merge_oid: String, results: Vec<BuildResult> },
}

pub enum StatusView {
    InReview,
    Queued { priority: i64, since: u64 },
    Testing { merge_oid: Seq<char>, started_at: u64, results: Map<Seq<char>, BuildResultView> },
    Canary { merge_oid: Seq<char>, results: Map<Seq<char>, BuildResultView> },
}

impl View for Status {
    type V = StatusView;

    open spec fn view(&self) -> StatusView {
        match *self {
            Status::InReview => StatusView::InReview,
            Status::Queued { priority, since } => StatusView::Queued { priority, since },
            Status::Testing { merge_oid, started_at, results } => StatusView::Testing {
                merge_oid: merge_oid@,
                started_at,
                results: results_of(results@),
            },
            Status::Canary { merge_oid, results } => StatusView::Canary {
                merge_oid: merge_oid@,
                results: results_of(results@),
            },
        }
    }
}

impl Status {
    pub fn duplicate(&self) -> (r: Self)
        ensures
            r@ == self@,
    {
        match self {
            Status::InReview => Status::InReview,
            Status::Queued { priority, since } => Status::Queued {
                priority: *priority,
                since: *since,
            },
            Status::Testing { merge_oid, started_at, results } => Status::Testing {
                merge_oid: merge_oid.clone(),
                started_at: *started_at,
                results: copy_results(results),
            },
            Status::Canary { merge_oid, results } => Status::Canary {
                merge_oid: merge_oid.clone(),
                results: copy_results(results),
            },
        }
    }
}

impl StatusView {
    /// The merge commit under test, if one is.
    pub open spec fn merge_oid(self) -> Option<Seq<char>> {
        match self {
            StatusView::Testing { merge_oid, .. } => Some(merge_oid),
            StatusView::Canary { merge_oid, .. } => Some(merge_oid),
            _ => None,
        }
    }

    /// The status with `r` as the most recent result under its check name.
    pub open spec fn with_result(self, r: BuildResultView) -> StatusView {
        match self {
            StatusView::Testing { merge_oid, started_at, results } => StatusView::Testing {
                merge_oid,
                started_at,
                results: results.insert(r.check_name, r),
            },
            StatusView::Canary { merge_oid, results } => StatusView::Canary {
                merge_oid,
                results: results.insert(r.check_name, r),
            },
            _ => self,
        }
    }
}

/// What the bot remembers of one open pull request.
#[derive(Debug, PartialEq, Eq)]
pub struct PullRequestState {
    pub number: u64,
    pub title: String,
    pub body: String,
    pub author: String,
    pub head_oid: String,
    pub head_repo: Option<Repo>,
    pub base_ref: String,
    pub base_oid: String,
    pub labels: Vec<String>,
    pub approved: bool,
    pub is_draft: bool,
    pub maintainer_can_modify: bool,
    pub priority: i64,
    pub squash: bool,
    /// Whether the pull request has been under test for a merge since it
    /// came to the table.
    pub tested: bool,
    pub status: Status,
}

pub struct PullView {
    pub number: u64,
    pub title: Seq<char>,
    pub body: Seq<char>,
    pub author: Seq<char>,
    pub head_oid: Seq<char>,
    pub head_repo: Option<(Seq<char>, Seq<char>)>,
    pub base_ref: Seq<char>,
    pub base_oid: Seq<char>,
    pub labels: Set<Seq<char>>,
    pub approved: bool,
    pub is_draft: bool,
    pub maintainer_can_modify: bool,
    pub priority: i64,
    pub squash: bool,
    pub tested: bool,
    pub status: StatusView,
}

impl View for PullRequestState {
    type V = PullView;

    open spec fn view(&self) -> PullView {
        PullView {
            number: self.number,
            title: self.title@,
            body: self.body@,
            author: self.author@,
            head_oid: self.head_oid@,
            head_repo: match self.head_repo {
                Some(r) => Some((r.owner@, r.name@)),
                None => None,
            },
            base_ref: self.base_ref@,
            base_oid: self.base_oid@,
            labels: label_set(self.labels@),
            approved: self.approved,
            is_draft: self.is_draft,
            maintainer_can_modify: self.maintainer_can_modify,
            priority: self.priority,
            squash: self.squash,
            tested: self.tested,
            status: self.status@,
        }
    }
}

/// The priority that the labels `labels` ask for: the high-priority label
/// wins over the low-priority one.
pub open spec fn label_priority(labels: Set<Seq<char>>, names: &Labels) -> i64 {
    if labels.contains(names.high_priority_name()) {
        1
    } else if labels.contains(names.low_priority_name()) {
        -1i64
    } else {
        0
    }
}

/// The call that takes `name` off pull request `number`, if it carries it.
pub open spec fn removal(labels: Set<Seq<char>>, number: u64, name: Seq<char>) -> Seq<ActionView> {
    if labels.contains(name) {
        seq![ActionView::RemoveLabel { number, label: name }]
    } else {
        Seq::empty()
    }
}

impl PullView {
    /// A pull request as first seen in `pull`: in review and not approved,
    /// with squash and priority as its labels say.
    pub open spec fn fresh(pull: &PullRequest, names: &Labels) -> PullView {
        let labels = label_set(pull.labels@);
        PullView {
            number: pull.number,
            title: pull.title@,
            body: match pull.body {
                Some(b) => b@,
                None => Seq::empty(),
            },
            author: pull.author@,
            head_oid: pull.head.sha@,
            head_repo: match pull.head.repo {
                Some(r) => Some((r.owner@, r.name@)),
                None => None,
            },
            base_ref: pull.base.git_ref@,
            base_oid: pull.base.sha@,
            labels,
            approved: false,
            is_draft: pull.draft,
            maintainer_can_modify: match pull.maintainer_can_modify {
                Some(b) => b,
                None => false,
            },
            priority: label_priority(labels, names),
            squash: labels.contains(names.squash_name()),
            tested: false,
            status: StatusView::InReview,
        }
    }

    /// Whether the pull request may be queued and tested: approved where the
    /// repository asks for review, not a draft, and free of blocking labels.
    pub open spec fn eligible(self, config: &RepoConfig) -> bool {
        &&& self.approved || !config.require_review
        &&& !self.is_draft
        &&& forall|l: Seq<char>| self.labels.contains(l) ==> !config.labels.blocks(l)
    }

    /// The pull request with priority `p`, in its place in the queue if it is queued.
    pub open spec fn with_priority(self, p: i64) -> PullView {
        PullView {
            priority: p,
            status: match self.status {
                StatusView::Queued { priority, since } => StatusView::Queued { priority: p, since },
                s => s,
            },
            ..self
        }
    }

    /// The pull request once its labels have become `labels` by adding or
    /// removing `changed`: squash follows the squash label, and priority
    /// follows the priority labels when `changed` is one of them.
    pub open spec fn with_labels(
        self,
        labels: Set<Seq<char>>,
        changed: Seq<char>,
        names: &Labels,
    ) -> PullView {
        let p = if changed == names.high_priority_name() || changed == names.low_priority_name() {
            label_priority(labels, names)
        } else {
            self.priority
        };
        PullView { labels, squash: labels.contains(names.squash_name()), ..self }.with_priority(p)
    }

    /// The pull request once `label` was put on it.
    pub open spec fn labeled(self, label: Seq<char>, names: &Labels) -> PullView {
        self.with_labels(self.labels.insert(label), label, names)
    }

    /// The pull request once `label` was taken off it.
    pub open spec fn unlabeled(self, label: Seq<char>, names: &Labels) -> PullView {
        self.with_labels(self.labels.remove(label), label, names)
    }

    /// The pull request sent back to review: the three labels of the queue
    /// are gone, and with them squash and any priority.
    pub open spec fn demoted(self, names: &Labels) -> PullView {
        PullView {
            status: StatusView::InReview,
            labels: self.labels.remove(names.squash_name()).remove(
                names.high_priority_name(),
            ).remove(names.low_priority_name()),
            squash: false,
            priority: 0,
            ..self
        }
    }

    /// The calls that take the labels of the queue off the pull request on
    /// the forge, one for each that it carries, in the order of `Labels::all`.
    pub open spec fn demote_calls(self, names: &Labels) -> Seq<ActionView> {
        let s = names.squash_name();
        let h = names.high_priority_name();
        removal(self.labels, self.number, s) + removal(self.labels.remove(s), self.number, h)
            + removal(self.labels.remove(s).remove(h), self.number, names.low_priority_name())
    }

    /// The pull request in the status `status`; going back to review takes
    /// the labels of the queue with it.
    pub open spec fn with_status(self, status: StatusView, names: &Labels) -> PullView {
        if status is InReview {
            self.demoted(names)
        } else {
            PullView { status, ..self }
        }
    }

    /// The calls that go with a change to the status `status`.
    pub open spec fn status_calls(self, status: StatusView, names: &Labels) -> Seq<ActionView> {
        if status is InReview {
            self.demote_calls(names)
        } else {
            Seq::empty()
        }
    }

    /// Whether a new head sends the pull request back to review.
    pub open spec fn head_demotes(self) -> bool {
        self.status is Queued || self.status is Testing
    }

    /// The pull request with the head commit `oid`: back in review if it was
    /// queued or under test for a merge.
    pub open spec fn with_head(self, oid: Seq<char>, names: &Labels) -> PullView {
        let moved = PullView { head_oid: oid, ..self };
        if self.head_demotes() {
            moved.demoted(names)
        } else {
            moved
        }
    }

    /// Whether the base `base_ref` sends the pull request back to review.
    pub open spec fn base_demotes(self, base_ref: Seq<char>) -> bool {
        base_ref != self.base_ref && !(self.status is InReview)
    }

    /// The pull request on the base branch `base_ref` at `base_oid`: back in
    /// review if the branch is another one than before.
    pub open spec fn with_base(
        self,
        base_ref: Seq<char>,
        base_oid: Seq<char>,
        names: &Labels,
    ) -> PullView {
        let moved = PullView { base_ref, base_oid, ..self };
        if self.base_demotes(base_ref) {
            moved.demoted(names)
        } else {
            moved
        }
    }

    pub open spec fn with_result(self, r: BuildResultView) -> PullView {
        PullView { status: self.status.with_result(r), ..self }
    }

    /// The pull request at the back of its priority band, entered at `now`.
    pub open spec fn enqueued(self, now: u64) -> PullView {
        PullView { status: StatusView::Queued { priority: self.priority, since: now }, ..self }
    }
}


/// Whether `label` is one of the labels that block merging.
pub fn blocked(label: &str, names: &Labels) -> (r: bool)
    ensures
        r == names.blocks(label@),
{
    let mut j: usize = 0;
    while j < names.do_not_merge.len()
        invariant
            j <= names.do_not_merge.len(),
            forall|k: int| 0 <= k < j ==> names.do_not_merge@[k]@ != label@,
        decreases names.do_not_merge.len() - j,
    {
        if same_text(names.do_not_merge[j].as_str(), label) {
            return true;
        }
        j = j + 1;
    }
    false
}

impl PullRequestState {
    /// The record of a pull request that comes to the table.
    pub fn from_pull_request(pull: &PullRequest, names: &Labels) -> (r: Self)
        ensures
            r@ == PullView::fresh(pull, names),
    {
        let labels = copy_labels(&pull.labels);
        let priority: i64 = if has_label(&labels, names.high_priority()) {
            1
        } else if has_label(&labels, names.low_priority()) {
            -1
        } else {
            0
        };
        let squash = has_label(&labels, names.squash());
        PullRequestState {
            number: pull.number,
            title: pull.title.clone(),
            body: match &pull.body {
                Some(b) => b.clone(),
                None => String::new(),
            },
            author: pull.author.clone(),
            head_oid: pull.head.sha.clone(),
            head_repo: match &pull.head.repo {
                Some(r) => Some(r.duplicate()),
                None => None,
            },
            base_ref: pull.base.git_ref.clone(),
            base_oid: pull.base.sha.clone(),
            labels,
            approved: false,
            is_draft: pull.draft,
            maintainer_can_modify: match pull.maintainer_can_modify {
                Some(b) => b,
                None => false,
            },
            priority,
            squash,
            tested: false,
            status: Status::InReview,
        }
    }

    pub fn duplicate(&self) -> (r: Self)
        ensures
            r@ == self@,
    {
        PullRequestState {
            number: self.number,
            title: self.title.clone(),
            body: self.body.clone(),
            author: self.author.clone(),
            head_oid: self.head_oid.clone(),
            head_repo: match &self.head_repo {
                Some(r) => Some(r.duplicate()),
                None => None,
            },
            base_ref: self.base_ref.clone(),
            base_oid: self.base_oid.clone(),
            labels: copy_labels(&self.labels),
            approved: self.approved,
            is_draft: self.is_draft,
            maintainer_can_modify: self.maintainer_can_modify,
            priority: self.priority,
            squash: self.squash,
            tested: self.tested,
            status: self.status.duplicate(),
        }
    }

    /// Whether the pull request may be queued and tested.
    pub fn eligible(&self, config: &RepoConfig) -> (r: bool)
        ensures
            r == self@.eligible(config),
    {
        if config.require_review() && !self.approved {
            return false;
        }
        if self.is_draft {
            return false;
        }
        let mut i: usize = 0;
        while i < self.labels.len()
            invariant
                i <= self.labels.len(),
                forall|k: int| 0 <= k < i ==> !config.labels.blocks(#[trigger] self.labels@[k]@),
            decreases self.labels.len() - i,
        {
            if blocked(self.labels[i].as_str(), config.labels()) {
                assert(self@.labels.contains(self.labels@[i as int]@));
                return false;
            }
            i = i + 1;
        }
        true
    }

    /// Sets the priority, also of the place in the queue.
    pub fn set_priority(&mut self, p: i64)
        ensures
            final(self)@ == old(self)@.with_priority(p),
    {
        self.priority = p;
        let queued_since: Option<u64> = match &self.status {
            Status::Queued { since, .. } => Some(*since),
            _ => None,
        };
        match queued_since {
            Some(since) => {
                self.status = Status::Queued { priority: p, since };
            },
            None => {},
        }
    }

    /// Brings squash and priority in line with the labels after `changed`
    /// was added or removed.
    fn follow_labels(&mut self, changed: &str, names: &Labels)
        ensures
            final(self)@ == old(self)@.with_labels(old(self)@.labels, changed@, names),
    {
        self.squash = has_label(&self.labels, names.squash());
        if same_text(changed, names.high_priority()) || same_text(changed, names.low_priority()) {
            let p: i64 = if has_label(&self.labels, names.high_priority()) {
                1
            } else if has_label(&self.labels, names.low_priority()) {
                -1
            } else {
                0
            };
            self.set_priority(p);
        } else {
            let p = self.priority;
            self.set_priority(p);
        }
    }

    /// Takes note that `label` was put on the pull request.
    pub fn labeled(&mut self, label: &str, names: &Labels)
        ensures
            final(self)@ == old(self)@.labeled(label@, names),
    {
        insert_label(&mut self.labels, label);
        self.follow_labels(label, names);
    }

    /// Takes note that `label` was taken off the pull request.
    pub fn unlabeled(&mut self, label: &str, names: &Labels)
        ensures
            final(self)@ == old(self)@.unlabeled(label@, names),
    {
        delete_label(&mut self.labels, label);
        self.follow_labels(label, names);
    }

    /// Puts `label` on the pull request, here and on the forge.
    pub fn add_label(&mut self, config: &RepoConfig, github: &mut GithubClient, label: &str)
        ensures
            final(self)@ == old(self)@.labeled(label@, &config.labels),
            final(github)@ == old(github)@.push(
                ActionView::AddLabel { number: old(self).number, label: label@ },
            ),
    {
        github.add_label(self.number, label);
        self.labeled(label, config.labels());
    }

    /// Takes `label` off the pull request, here and on the forge.
    pub fn remove_label(&mut self, config: &RepoConfig, github: &mut GithubClient, label: &str)
        ensures
            final(self)@ == old(self)@.unlabeled(label@, &config.labels),
            final(github)@ == old(github)@.push(
                ActionView::RemoveLabel { number: old(self).number, label: label@ },
            ),
    {
        github.remove_label(self.number, label);
        self.unlabeled(label, config.labels());
    }

    /// Takes `name` off the pull request if it carries it.
    fn drop_label(&mut self, github: &mut GithubClient, name: &str)
        ensures
            final(self)@ == (PullView { labels: old(self)@.labels.remove(name@), ..old(self)@ }),
            final(github)@ == old(github)@ + removal(old(self)@.labels, old(self).number, name@),
    {
        if has_label(&self.labels, name) {
            delete_label(&mut self.labels, name);
            github.remove_label(self.number, name);
            assert(github@ =~= old(github)@ + removal(old(self)@.labels, old(self).number, name@));
        } else {
            assert(old(self)@.labels.remove(name@) =~= old(self)@.labels);
            assert(github@ =~= old(github)@ + removal(old(self)@.labels, old(self).number, name@));
        }
    }

    /// Sets the status; a pull request that goes back to review loses the
    /// labels of the queue.
    pub fn update_status(&mut self, status: Status, config: &RepoConfig, github: &mut GithubClient)
        ensures
            final(self)@ == old(self)@.with_status(status@, &config.labels),
            final(github)@ == old(github)@ + old(self)@.status_calls(status@, &config.labels),
    {
        let to_review = match &status {
            Status::InReview => true,
            _ => false,
        };
        self.status = status;
        if to_review {
            let names = config.labels();
            self.drop_label(github, names.squash());
            self.drop_label(github, names.high_priority());
            self.drop_label(github, names.low_priority());
            self.squash = false;
            self.priority = 0;
            assert(github@ =~= old(github)@ + old(self)@.demote_calls(&config.labels));
        } else {
            assert(github@ =~= old(github)@ + Seq::<ActionView>::empty());
        }
    }

    /// Takes note of a new head commit.
    pub fn update_head(&mut self, oid: String, config: &RepoConfig, github: &mut GithubClient)
        ensures
            final(self)@ == old(self)@.with_head(oid@, &config.labels),
            final(github)@ == old(github)@ + (if old(self)@.head_demotes() {
                old(self)@.demote_calls(&config.labels)
            } else {
                Seq::empty()
            }),
    {
        self.head_oid = oid;
        let demote = match &self.status {
            Status::Queued { .. } => true,
            Status::Testing { .. } => true,
            _ => false,
        };
        if demote {
            self.update_status(Status::InReview, config, github);
        } else {
            assert(github@ =~= old(github)@ + Seq::<ActionView>::empty());
        }
    }

    /// Takes note of the base branch and its commit.
    pub fn update_base_ref(
        &mut self,
        base_ref: &str,
        base_oid: &str,
        config: &RepoConfig,
        github: &mut GithubClient,
    )
        ensures
            final(self)@ == old(self)@.with_base(base_ref@, base_oid@, &config.labels),
            final(github)@ == old(github)@ + (if old(self)@.base_demotes(base_ref@) {
                old(self)@.demote_calls(&config.labels)
            } else {
                Seq::empty()
            }),
    {
        let in_review = match &self.status {
            Status::InReview => true,
            _ => false,
        };
        let changed = !same_text(self.base_ref.as_str(), base_ref);
        self.base_ref = String::from_str(base_ref);
        self.base_oid = String::from_str(base_oid);
        if changed && !in_review {
            self.update_status(Status::InReview, config, github);
        } else {
            assert(github@ =~= old(github)@ + Seq::<ActionView>::empty());
        }
    }

    /// Records the outcome of a check on the merge commit under test.
    pub fn add_build_result(&mut self, name: &str, url: &str, conclusion: Conclusion)
        ensures
            final(self)@ == old(self)@.with_result(
                BuildResultView { check_name: name@, url: url@, conclusion },
            ),
    {
        let result = BuildResult {
            check_name: String::from_str(name),
            url: String::from_str(url),
            conclusion,
        };
        match &mut self.status {
            Status::Testing { results, .. } => {
                proof {
                    lemma_results_push(results@, result);
                }
                results.push(result);
            },
            Status::Canary { results, .. } => {
                proof {
                    lemma_results_push(results@, result);
                }
                results.push(result);
            },
            _ => {},
        }
    }

    /// Puts the pull request at the back of its priority band.
    pub fn enqueue(&mut self, now: u64)
        ensures
            final(self)@ == old(self)@.enqueued(now),
    {
        self.status = Status::Queued { priority: self.priority, since: now };
    }
}

} // verus!
