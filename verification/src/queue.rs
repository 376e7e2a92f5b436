//! The merge queue: which pull request is under test, how its test stands,
//! and which one is tested next.

use crate::config::RepoConfig;
use crate::forge::{ActionView, GithubClient};
use crate::model::{unused, Progress, State};
use crate::state::{latest_result, results_of, BuildResult, BuildResultView, Conclusion};
use crate::state::{PullRequestState, PullView, Status, StatusView};
use crate::step::{Step, StepView};
use crate::table::{at, lemma_table_entry, lemma_table_update, PullTable};
use crate::text;
use crate::text::same_text;
use vstd::prelude::*;

verus! {

/// The pull request under test and the instant at which its test runs out.
#[derive(Clone, Copy, Debug, PartialEq, Eq, Structural)]
pub struct InFlight {
    pub number: u64,
    pub deadline: u64,
}

/// How the test of the candidate stands.
#[derive(Clone, Copy, Debug, PartialEq, Eq, Structural)]
pub enum Verdict {
    /// A required check ended otherwise than in success.
    Failed,
    /// Every required check succeeded.
    Passed,
    /// The time limit ran out before every required check had reported.
    TimedOut,
    /// Some required check has not reported yet.
    Running,
}

/// Whether some required check has a result other than success.
pub open spec fn any_failed(
    required: Seq<Seq<char>>,
    results: Map<Seq<char>, BuildResultView>,
) -> bool {
    exists|i: int|
        0 <= i < required.len() && results.contains_key(#[trigger] required[i])
            && results[required[i]].conclusion != Conclusion::Success
}

/// Whether every required check has succeeded.
pub open spec fn all_passed(
    required: Seq<Seq<char>>,
    results: Map<Seq<char>, BuildResultView>,
) -> bool {
    forall|i: int|
        0 <= i < required.len() ==> results.contains_key(#[trigger] required[i])
            && results[required[i]].conclusion == Conclusion::Success
}

/// Seconds from `started_at` to `now`; none if the clock reads earlier.
pub open spec fn elapsed(started_at: u64, now: u64) -> int {
    if now >= started_at {
        now - started_at
    } else {
        0
    }
}

/// How a test stands: a failed check decides before anything else, then
/// success of every check, then the time limit.
pub open spec fn verdict(
    required: Seq<Seq<char>>,
    results: Map<Seq<char>, BuildResultView>,
    started_at: u64,
    now: u64,
    timeout: u64,
) -> Verdict {
    if any_failed(required, results) {
        Verdict::Failed
    } else if all_passed(required, results) {
        Verdict::Passed
    } else if elapsed(started_at, now) > timeout {
        Verdict::TimedOut
    } else {
        Verdict::Running
    }
}

/// Judges a test that started at `started_at` by the results that have come in.
pub fn evaluate(config: &RepoConfig, results: &Vec<BuildResult>, started_at: u64, now: u64) -> (v:
    Verdict)
    ensures
        v == verdict(
            config.required_checks(),
            results_of(results@),
            started_at,
            now,
            config.timeout_secs(),
        ),
{
    let names = config.checks();
    let ghost required = config.required_checks();
    let ghost found = results_of(results@);
    let mut failed = false;
    let mut passed = true;
    let mut i: usize = 0;
    while i < names.len()
        invariant
            i <= names.len(),
            names@.len() == required.len(),
            forall|k: int| 0 <= k < names@.len() ==> names@[k]@ == #[trigger] required[k],
            found == results_of(results@),
            failed == (exists|k: int|
                0 <= k < i && found.contains_key(#[trigger] required[k])
                    && found[required[k]].conclusion != Conclusion::Success),
            passed == (forall|k: int|
                0 <= k < i ==> found.contains_key(#[trigger] required[k])
                    && found[required[k]].conclusion == Conclusion::Success),
        decreases names.len() - i,
    {
        assert(names@[i as int]@ == required[i as int]);
        match latest_result(results, names[i]) {
            None => {
                passed = false;
            },
            Some(result) => {
                match result.conclusion {
                    Conclusion::Success => {},
                    _ => {
                        failed = true;
                        passed = false;
                    },
                }
            },
        }
        i = i + 1;
    }
    if failed {
        Verdict::Failed
    } else if passed {
        Verdict::Passed
    } else if now >= started_at && now - started_at > config.timeout() {
        Verdict::TimedOut
    } else {
        Verdict::Running
    }
}

/// Whether the pull request waits in the queue and may be tested.
pub open spec fn candidate(p: PullView, config: &RepoConfig) -> bool {
    p.status is Queued && p.eligible(config)
}

/// Whether the queued pull request `a` is tested before the queued pull
/// request `b`: the higher priority first, within one priority the one that
/// entered the queue earlier, and of two that entered together the lower number.
pub open spec fn before(a: PullView, b: PullView) -> bool {
    let pa = a.status->Queued_priority;
    let pb = b.status->Queued_priority;
    let sa = a.status->Queued_since;
    let sb = b.status->Queued_since;
    pa > pb || (pa == pb && (sa < sb || (sa == sb && a.number < b.number)))
}

/// Whether pull request `n` is a candidate that goes before every other one.
pub open spec fn is_next(pulls: Map<u64, PullView>, config: &RepoConfig, n: u64) -> bool {
    &&& pulls.contains_key(n)
    &&& candidate(pulls[n], config)
    &&& forall|m: u64|
        pulls.contains_key(m) && m != n && candidate(#[trigger] pulls[m], config) ==> before(
            pulls[n],
            pulls[m],
        )
}

/// The pull request to test next, if any waits and may be tested.
pub open spec fn next_candidate(pulls: Map<u64, PullView>, config: &RepoConfig) -> Option<u64> {
    if exists|n: u64| is_next(pulls, config, n) {
        Some(choose|n: u64| is_next(pulls, config, n))
    } else {
        None
    }
}

/// Whether every pull request stands under its own number.
pub open spec fn keyed(pulls: Map<u64, PullView>) -> bool {
    forall|n: u64| pulls.contains_key(n) ==> (#[trigger] pulls[n]).number == n
}

/// At most one pull request goes before all others.
pub proof fn lemma_next_unique(pulls: Map<u64, PullView>, config: &RepoConfig, n: u64, m: u64)
    requires
        keyed(pulls),
        is_next(pulls, config, n),
        is_next(pulls, config, m),
    ensures
        n == m,
{
    if n != m {
        assert(before(pulls[n], pulls[m]));
        assert(before(pulls[m], pulls[n]));
    }
}

/// The pull request that goes before all others is the next candidate.
pub proof fn lemma_next_is(pulls: Map<u64, PullView>, config: &RepoConfig, n: u64)
    requires
        keyed(pulls),
        is_next(pulls, config, n),
    ensures
        next_candidate(pulls, config) == Some(n),
{
    let m = choose|m: u64| is_next(pulls, config, m);
    lemma_next_unique(pulls, config, n, m);
}

/// In a table without a number twice, every record stands under its own number.
pub proof fn lemma_table_keyed(s: Seq<PullRequestState>)
    requires
        crate::table::distinct(s),
    ensures
        keyed(crate::table::table_of(s)),
{
    let t = crate::table::table_of(s);
    assert forall|n: u64| t.contains_key(n) implies (#[trigger] t[n]).number == n by {
        let j = choose|j: int| at(s, n, j);
        lemma_table_entry(s, j);
    }
}

fn is_candidate(p: &PullRequestState, config: &RepoConfig) -> (r: bool)
    ensures
        r == candidate(p@, config),
{
    match &p.status {
        Status::Queued { .. } => p.eligible(config),
        _ => false,
    }
}

fn goes_before(a: &PullRequestState, b: &PullRequestState) -> (r: bool)
    requires
        a.status is Queued,
        b.status is Queued,
    ensures
        r == before(a@, b@),
{
    match (&a.status, &b.status) {
        (Status::Queued { priority: pa, since: sa }, Status::Queued { priority: pb, since: sb }) => {
            *pa > *pb || (*pa == *pb && (*sa < *sb || (*sa == *sb && a.number < b.number)))
        },
        _ => false,
    }
}

/// The number of the pull request to test next.
pub fn select(pulls: &PullTable, config: &RepoConfig) -> (r: Option<u64>)
    requires
        pulls.wf(),
    ensures
        r == next_candidate(pulls@, config),
        r matches Some(n) ==> is_next(pulls@, config, n),
        r is None ==> forall|n: u64|
            pulls@.contains_key(n) ==> !candidate(#[trigger] pulls@[n], config),
{
    let ghost s = pulls.entries@;
    let mut best: Option<usize> = None;
    let mut i: usize = 0;
    while i < pulls.entries.len()
        invariant
            i <= pulls.entries.len(),
            s == pulls.entries@,
            pulls.wf(),
            match best {
                Some(b) => b < i && candidate(s[b as int]@, config) && forall|k: int|
                    0 <= k < i && k != b && candidate(#[trigger] s[k]@, config) ==> before(
                        s[b as int]@,
                        s[k]@,
                    ),
                None => forall|k: int| 0 <= k < i ==> !candidate(#[trigger] s[k]@, config),
            },
        decreases pulls.entries.len() - i,
    {
        if is_candidate(&pulls.entries[i], config) {
            match best {
                None => {
                    best = Some(i);
                },
                Some(b) => {
                    if goes_before(&pulls.entries[i], &pulls.entries[b]) {
                        assert forall|k: int|
                            0 <= k < i + 1 && k != i && candidate(
                                #[trigger] s[k]@,
                                config,
                            ) implies before(s[i as int]@, s[k]@) by {
                            if k != b {
                                assert(before(s[b as int]@, s[k]@));
                            }
                        }
                        best = Some(i);
                    } else {
                        assert(s[i as int].number != s[b as int].number);
                        assert(before(s[b as int]@, s[i as int]@));
                    }
                },
            }
        }
        i = i + 1;
    }
    proof {
        lemma_table_keyed(s);
    }
    match best {
        Some(b) => {
            let n = pulls.entries[b].number;
            proof {
                lemma_table_entry(s, b as int);
                assert forall|m: u64|
                    pulls@.contains_key(m) && m != n && candidate(
                        #[trigger] pulls@[m],
                        config,
                    ) implies before(pulls@[n], pulls@[m]) by {
                    let j = choose|j: int| at(s, m, j);
                    lemma_table_entry(s, j);
                    assert(candidate(s[j]@, config));
                }
                lemma_next_is(pulls@, config, n);
            }
            Some(n)
        },
        None => {
            proof {
                assert forall|n: u64| pulls@.contains_key(n) implies !candidate(
                    #[trigger] pulls@[n],
                    config,
                ) by {
                    let j = choose|j: int| at(s, n, j);
                    lemma_table_entry(s, j);
                    assert(!candidate(s[j]@, config));
                }
                assert(forall|n: u64| !is_next(pulls@, config, n));
            }
            None
        },
    }
}


/// The step that has the merge commit of `p` made, for a merge or, with
/// `canary`, for its test results only.
pub open spec fn prepare_step(p: PullView, canary: bool) -> StepView {
    StepView::Prepare {
        number: p.number,
        head_oid: p.head_oid,
        base_ref: p.base_ref,
        base_oid: p.base_oid,
        squash: p.squash,
        author: p.author,
        message: text::merge_message_text(p.number, p.title),
        canary,
    }
}

/// The step after the queue has lost its candidate or had none: the merge
/// commit of the next candidate is made, or the queue rests.
pub open spec fn next_step(pulls: Map<u64, PullView>, config: &RepoConfig) -> StepView {
    match next_candidate(pulls, config) {
        Some(m) => prepare_step(pulls[m], false),
        None => StepView::Done,
    }
}

/// The queue with nothing under test, after `calls`, on its way to the next
/// candidate.
pub open spec fn advance(
    pulls: Map<u64, PullView>,
    config: &RepoConfig,
    calls: Seq<ActionView>,
) -> Progress {
    Progress { state: State { pulls, head: None }, calls, next: next_step(pulls, config) }
}

/// The table after pull request `p` went back to review with the comment
/// `body`, and the queue on its way to the next candidate.
pub open spec fn sent_back(
    pulls: Map<u64, PullView>,
    config: &RepoConfig,
    p: PullView,
    body: Seq<char>,
) -> Progress {
    advance(
        pulls.insert(p.number, p.demoted(&config.labels)),
        config,
        seq![ActionView::CreateComment { number: p.number, body }] + p.demote_calls(
            &config.labels,
        ),
    )
}

/// One evaluation of the queue at the instant `now`. A candidate whose
/// required checks have all succeeded is to be merged; one with a failed
/// check, or out of time, goes back to review and the next one is chosen;
/// one still running keeps the queue waiting.
pub open spec fn tick(s: State, config: &RepoConfig, now: u64) -> Progress {
    match s.in_flight() {
        None => advance(s.pulls, config, Seq::empty()),
        Some(n) => {
            let p = s.pulls[n];
            let required = config.required_checks();
            let results = p.status->Testing_results;
            match verdict(
                required,
                results,
                p.status->Testing_started_at,
                now,
                config.timeout_secs(),
            ) {
                Verdict::Running => Progress { state: s, calls: Seq::empty(), next: StepView::Done },
                Verdict::Passed => Progress {
                    state: s,
                    calls: Seq::empty(),
                    next: StepView::Land {
                        number: n,
                        base_ref: p.base_ref,
                        merge_oid: p.status->Testing_merge_oid,
                    },
                },
                Verdict::Failed => sent_back(
                    s.pulls,
                    config,
                    p,
                    text::failed_text(required, results),
                ),
                Verdict::TimedOut => sent_back(
                    s.pulls,
                    config,
                    p,
                    text::timed_out_text(required, results),
                ),
            }
        },
    }
}

/// The queue after the forge answered the merge of pull request `number`:
/// with `error` the pull request goes back to review, without it the pull
/// request leaves the table. Either way the next candidate is chosen. An
/// answer about a pull request that is not under test changes nothing.
pub open spec fn landed(
    s: State,
    config: &RepoConfig,
    number: u64,
    error: Option<Seq<char>>,
) -> Progress {
    if s.in_flight() == Some(number) {
        match error {
            None => advance(s.pulls.remove(number), config, Seq::empty()),
            Some(e) => sent_back(s.pulls, config, s.pulls[number], text::merge_failed_text(e)),
        }
    } else {
        Progress { state: s, calls: Seq::empty(), next: StepView::Done }
    }
}

/// Whether `oid` can be the merge commit of a test: it is not empty and no
/// pull request in the table has it already.
pub open spec fn usable(pulls: Map<u64, PullView>, oid: Option<Seq<char>>) -> bool {
    oid matches Some(o) && o.len() > 0 && unused(pulls, o)
}

/// The instant at which a test that starts at `now` runs out.
pub open spec fn deadline_of(now: u64, timeout: u64) -> u64 {
    if now + timeout > u64::MAX {
        u64::MAX
    } else {
        (now + timeout) as u64
    }
}

/// The queue after the working copy answered for the candidate `number`:
/// with a usable merge commit its test starts at `now`; without one the
/// pull request goes back to review and the next candidate is chosen. An
/// answer for a pull request that is not the next candidate, or while
/// another is under test, changes nothing.
pub open spec fn prepared(
    s: State,
    config: &RepoConfig,
    number: u64,
    merge_oid: Option<Seq<char>>,
    now: u64,
) -> Progress {
    if s.in_flight() is None && next_candidate(s.pulls, config) == Some(number) {
        let p = s.pulls[number];
        if usable(s.pulls, merge_oid) {
            Progress {
                state: State {
                    pulls: s.pulls.insert(
                        number,
                        PullView {
                            status: StatusView::Testing {
                                merge_oid: merge_oid->0,
                                started_at: now,
                                results: Map::empty(),
                            },
                            tested: true,
                            ..p
                        },
                    ),
                    head: Some(
                        InFlight { number, deadline: deadline_of(now, config.timeout_secs()) },
                    ),
                },
                calls: seq![
                    ActionView::CreateComment { number, body: text::testing_text(merge_oid->0) },
                ],
                next: StepView::Done,
            }
        } else {
            sent_back(s.pulls, config, p, text::conflict_text(p.author))
        }
    } else {
        Progress { state: s, calls: Seq::empty(), next: StepView::Done }
    }
}

/// The place of the first pull request whose merge commit is `oid`.
pub fn find_merge_oid(pulls: &PullTable, oid: &str) -> (r: Option<usize>)
    ensures
        match r {
            Some(i) => i < pulls.entries@.len() && pulls.entries@[i as int]@.status.merge_oid()
                == Some(oid@) && forall|k: int|
                0 <= k < i ==> (#[trigger] pulls.entries@[k])@.status.merge_oid() != Some(oid@),
            None => forall|k: int|
                0 <= k < pulls.entries@.len() ==> (#[trigger] pulls.entries@[k])@.status.merge_oid()
                    != Some(oid@),
        },
{
    let mut i: usize = 0;
    while i < pulls.entries.len()
        invariant
            i <= pulls.entries.len(),
            forall|k: int|
                0 <= k < i ==> (#[trigger] pulls.entries@[k])@.status.merge_oid() != Some(oid@),
        decreases pulls.entries.len() - i,
    {
        let found = match &pulls.entries[i].status {
            Status::Testing { merge_oid, .. } => same_text(merge_oid.as_str(), oid),
            Status::Canary { merge_oid, .. } => same_text(merge_oid.as_str(), oid),
            _ => false,
        };
        if found {
            return Some(i);
        }
        i = i + 1;
    }
    None
}

/// Whether `oid` can be the merge commit of a new test.
pub fn is_usable(pulls: &PullTable, oid: &Option<String>) -> (r: bool)
    requires
        pulls.wf(),
    ensures
        r == usable(
            pulls@,
            match oid {
                Some(o) => Some(o@),
                None => None,
            },
        ),
{
    match oid {
        None => false,
        Some(o) => {
            if o.as_str().is_empty() {
                return false;
            }
            let ghost s = pulls.entries@;
            match find_merge_oid(pulls, o.as_str()) {
                Some(i) => {
                    proof {
                        lemma_table_entry(s, i as int);
                    }
                    false
                },
                None => {
                    proof {
                        assert forall|n: u64| pulls@.contains_key(n) implies (
                        #[trigger] pulls@[n]).status.merge_oid() != Some(o@) by {
                            let j = choose|j: int| at(s, n, j);
                            lemma_table_entry(s, j);
                        }
                    }
                    true
                },
            }
        },
    }
}

/// The step that has the merge commit of `p` made.
pub fn prepare(p: &PullRequestState, canary: bool) -> (r: Step)
    ensures
        r@ == prepare_step(p@, canary),
{
    Step::Prepare {
        number: p.number,
        head_oid: p.head_oid.clone(),
        base_ref: p.base_ref.clone(),
        base_oid: p.base_oid.clone(),
        squash: p.squash,
        author: p.author.clone(),
        message: text::merge_message(p.number, p.title.as_str()),
        canary,
    }
}

/// The queue's own state: a reference to the pull request under test.
#[derive(Debug, PartialEq, Eq)]
pub struct MergeQueue {
    pub head: Option<InFlight>,
}

impl MergeQueue {
    pub fn new() -> (r: Self)
        ensures
            r.head is None,
    {
        MergeQueue { head: None }
    }

    /// Forgets the pull request under test.
    pub fn reset(&mut self)
        ensures
            final(self).head is None,
    {
        self.head = None;
    }

    /// The place in the table of the pull request under test.
    fn flying(&self, pulls: &PullTable) -> (r: Option<usize>)
        requires
            pulls.wf(),
        ensures
            match r {
                Some(i) => i < pulls.entries@.len() && pulls.entries@[i as int].status is Testing
                    && (State { pulls: pulls@, head: self.head }).in_flight() == Some(
                    pulls.entries@[i as int].number,
                ) && pulls@[pulls.entries@[i as int].number] == pulls.entries@[i as int]@,
                None => (State { pulls: pulls@, head: self.head }).in_flight() is None,
            },
    {
        match self.head {
            None => None,
            Some(f) => match pulls.position(f.number) {
                None => None,
                Some(i) => match &pulls.entries[i].status {
                    Status::Testing { .. } => Some(i),
                    _ => None,
                },
            },
        }
    }

    /// Gives up the reference to a candidate and asks for the next one.
    fn advance(&mut self, config: &RepoConfig, pulls: &PullTable) -> (next: Step)
        requires
            pulls.wf(),
        ensures
            final(self).head is None,
            next@ == next_step(pulls@, config),
    {
        self.head = None;
        match select(pulls, config) {
            None => Step::Done,
            Some(n) => match pulls.get(n) {
                None => Step::Done,
                Some(p) => prepare(p, false),
            },
        }
    }

    /// Sends the pull request at place `i` back to review with the comment
    /// `body`, and asks for the next candidate.
    fn send_back(
        &mut self,
        config: &RepoConfig,
        github: &mut GithubClient,
        pulls: &mut PullTable,
        i: usize,
        body: String,
    ) -> (next: Step)
        requires
            old(pulls).wf(),
            i < old(pulls).entries@.len(),
        ensures
            final(pulls).wf(),
            ({
                let p = old(pulls).entries@[i as int]@;
                let r = sent_back(old(pulls)@, config, p, body@);
                &&& (State { pulls: final(pulls)@, head: final(self).head }) == r.state
                &&& final(github)@ == old(github)@ + r.calls
                &&& next@ == r.next
            }),
    {
        let number = pulls.entries[i].number;
        github.create_comment(number, body);
        pulls.entries[i].update_status(Status::InReview, config, github);
        proof {
            let p = old(pulls).entries@[i as int]@;
            lemma_table_update(old(pulls).entries@, i as int, pulls.entries@[i as int]);
            assert(pulls.entries@ =~= old(pulls).entries@.update(
                i as int,
                pulls.entries@[i as int],
            ));
            assert(github@ =~= old(github)@ + (seq![
                ActionView::CreateComment { number: p.number, body: body@ },
            ] + p.demote_calls(&config.labels)));
        }
        self.advance(config, pulls)
    }

    /// Evaluates the queue once, at the instant `now`.
    pub fn process_queue(
        &mut self,
        config: &RepoConfig,
        github: &mut GithubClient,
        pulls: &mut PullTable,
        now: u64,
    ) -> (next: Step)
        requires
            old(pulls).wf(),
        ensures
            final(pulls).wf(),
            ({
                let r = tick(State { pulls: old(pulls)@, head: old(self).head }, config, now);
                &&& (State { pulls: final(pulls)@, head: final(self).head }) == r.state
                &&& final(github)@ == old(github)@ + r.calls
                &&& next@ == r.next
            }),
    {
        match self.flying(pulls) {
            None => {
                assert(github@ =~= old(github)@ + Seq::<ActionView>::empty());
                self.advance(config, pulls)
            },
            Some(i) => {
                let p = &pulls.entries[i];
                match &p.status {
                    Status::Testing { merge_oid, started_at, results } => {
                        match evaluate(config, results, *started_at, now) {
                            Verdict::Running => {
                                assert(github@ =~= old(github)@ + Seq::<ActionView>::empty());
                                Step::Done
                            },
                            Verdict::Passed => {
                                assert(github@ =~= old(github)@ + Seq::<ActionView>::empty());
                                Step::Land {
                                    number: p.number,
                                    base_ref: p.base_ref.clone(),
                                    merge_oid: merge_oid.clone(),
                                }
                            },
                            Verdict::Failed => {
                                let body = text::failed(config, results);
                                self.send_back(config, github, pulls, i, body)
                            },
                            Verdict::TimedOut => {
                                let body = text::timed_out(config, results);
                                self.send_back(config, github, pulls, i, body)
                            },
                        }
                    },
                    _ => Step::Done,
                }
            },
        }
    }

    /// Takes the forge's answer to the merge of pull request `number`:
    /// `error` is what went wrong, if anything did.
    pub fn landed(
        &mut self,
        config: &RepoConfig,
        github: &mut GithubClient,
        pulls: &mut PullTable,
        number: u64,
        error: Option<&str>,
    ) -> (next: Step)
        requires
            old(pulls).wf(),
        ensures
            final(pulls).wf(),
            ({
                let r = landed(
                    State { pulls: old(pulls)@, head: old(self).head },
                    config,
                    number,
                    match error {
                        Some(e) => Some(e@),
                        None => None,
                    },
                );
                &&& (State { pulls: final(pulls)@, head: final(self).head }) == r.state
                &&& final(github)@ == old(github)@ + r.calls
                &&& next@ == r.next
            }),
    {
        match self.flying(pulls) {
            Some(i) => {
                if pulls.entries[i].number == number {
                    match error {
                        None => {
                            pulls.remove(number);
                            assert(github@ =~= old(github)@ + Seq::<ActionView>::empty());
                            self.advance(config, pulls)
                        },
                        Some(e) => {
                            let body = text::merge_failed(e);
                            self.send_back(config, github, pulls, i, body)
                        },
                    }
                } else {
                    assert(github@ =~= old(github)@ + Seq::<ActionView>::empty());
                    Step::Done
                }
            },
            None => {
                assert(github@ =~= old(github)@ + Seq::<ActionView>::empty());
                Step::Done
            },
        }
    }

    /// Takes the working copy's answer for the candidate `number`: the
    /// merge commit that was pushed for testing, or none if the merge failed.
    pub fn prepared(
        &mut self,
        config: &RepoConfig,
        github: &mut GithubClient,
        pulls: &mut PullTable,
        number: u64,
        merge_oid: Option<String>,
        now: u64,
    ) -> (next: Step)
        requires
            old(pulls).wf(),
        ensures
            final(pulls).wf(),
            ({
                let r = prepared(
                    State { pulls: old(pulls)@, head: old(self).head },
                    config,
                    number,
                    match merge_oid {
                        Some(o) => Some(o@),
                        None => None,
                    },
                    now,
                );
                &&& (State { pulls: final(pulls)@, head: final(self).head }) == r.state
                &&& final(github)@ == old(github)@ + r.calls
                &&& next@ == r.next
            }),
    {
        let expected = match self.flying(pulls) {
            Some(_) => false,
            None => match select(pulls, config) {
                Some(n) => n == number,
                None => false,
            },
        };
        if !expected {
            assert(github@ =~= old(github)@ + Seq::<ActionView>::empty());
            return Step::Done;
        }
        match pulls.position(number) {
            None => Step::Done,
            Some(i) => {
                if is_usable(pulls, &merge_oid) {
                    match merge_oid {
                        None => Step::Done,
                        Some(oid) => {
                            github.create_comment(number, text::testing(oid.as_str()));
                            let timeout = config.timeout();
                            let deadline: u64 = if timeout > u64::MAX - now {
                                u64::MAX
                            } else {
                                now + timeout
                            };
                            let ghost before = pulls.entries@;
                            pulls.entries[i].status = Status::Testing {
                                merge_oid: oid,
                                started_at: now,
                                results: Vec::new(),
                            };
                            pulls.entries[i].tested = true;
                            self.head = Some(InFlight { number, deadline });
                            proof {
                                lemma_table_update(before, i as int, pulls.entries@[i as int]);
                                assert(pulls.entries@ =~= before.update(
                                    i as int,
                                    pulls.entries@[i as int],
                                ));
                                assert(results_of(Seq::<BuildResult>::empty()) =~= Map::empty());
                            }
                            Step::Done
                        },
                    }
                } else {
                    let body = text::conflict(pulls.entries[i].author.as_str());
                    self.send_back(config, github, pulls, i, body)
                }
            },
        }
    }
}


/// With no pull request under test, none in the table is being tested.
pub proof fn lemma_idle(s: State)
    requires
        s.inv(),
        s.in_flight() is None,
    ensures
        forall|n: u64| !s.testing(n),
{
    assert forall|n: u64| !s.testing(n) by {
        if s.testing(n) {
            assert(s.head->0.number == n);
        }
    }
}

/// Sending the only pull request that may be under test back to review
/// keeps the table in order.
pub proof fn lemma_sent_back_keeps_inv(s: State, config: &RepoConfig, n: u64, body: Seq<char>)
    requires
        s.inv(),
        s.pulls.contains_key(n),
        s.in_flight() is None || s.in_flight() == Some(n),
    ensures
        sent_back(s.pulls, config, s.pulls[n], body).state.inv(),
{
    let t = sent_back(s.pulls, config, s.pulls[n], body).state;
    assert(s.pulls[n].number == n);
    assert forall|m: u64| !t.testing(m) by {
        if t.testing(m) {
            assert(m != n);
            assert(s.testing(m));
        }
    }
    assert forall|a: u64, b: u64|
        t.pulls.contains_key(a) && t.pulls.contains_key(b) && a != b && (
        #[trigger] t.pulls[a]).status.merge_oid() is Some implies t.pulls[a].status.merge_oid() != (
    #[trigger] t.pulls[b]).status.merge_oid() by {
        assert(s.pulls[a].status.merge_oid() is Some);
        if b != n {
            assert(s.pulls[a].status.merge_oid() != s.pulls[b].status.merge_oid());
        }
    }
}

/// An evaluation of the queue keeps the table in order.
pub proof fn lemma_tick_keeps_inv(s: State, config: &RepoConfig, now: u64)
    requires
        s.inv(),
    ensures
        tick(s, config, now).state.inv(),
{
    match s.in_flight() {
        None => {
            lemma_idle(s);
            let t = tick(s, config, now).state;
            assert forall|n: u64| !t.testing(n) by {
                assert(!s.testing(n));
            }
        },
        Some(n) => {
            let required = config.required_checks();
            let results = s.pulls[n].status->Testing_results;
            lemma_sent_back_keeps_inv(s, config, n, text::failed_text(required, results));
            lemma_sent_back_keeps_inv(s, config, n, text::timed_out_text(required, results));
        },
    }
}

/// The answer to a merge keeps the table in order.
pub proof fn lemma_landed_keeps_inv(
    s: State,
    config: &RepoConfig,
    number: u64,
    error: Option<Seq<char>>,
)
    requires
        s.inv(),
    ensures
        landed(s, config, number, error).state.inv(),
{
    if s.in_flight() == Some(number) {
        match error {
            None => {
                let t = landed(s, config, number, error).state;
                assert forall|m: u64| !t.testing(m) by {
                    if t.testing(m) {
                        assert(s.testing(m));
                    }
                }
                assert forall|a: u64, b: u64|
                    t.pulls.contains_key(a) && t.pulls.contains_key(b) && a != b && (
                    #[trigger] t.pulls[a]).status.merge_oid() is Some implies t.pulls[a].status.merge_oid()
                    != (#[trigger] t.pulls[b]).status.merge_oid() by {
                    assert(s.pulls[a].status.merge_oid() != s.pulls[b].status.merge_oid());
                }
            },
            Some(e) => {
                lemma_sent_back_keeps_inv(s, config, number, text::merge_failed_text(e));
            },
        }
    }
}

/// The answer to the making of a merge commit keeps the table in order.
pub proof fn lemma_prepared_keeps_inv(
    s: State,
    config: &RepoConfig,
    number: u64,
    merge_oid: Option<Seq<char>>,
    now: u64,
)
    requires
        s.inv(),
    ensures
        prepared(s, config, number, merge_oid, now).state.inv(),
{
    if s.in_flight() is None && next_candidate(s.pulls, config) == Some(number) {
        assert(s.pulls.contains_key(number));
        assert(s.pulls[number].number == number);
        if usable(s.pulls, merge_oid) {
            lemma_idle(s);
            let t = prepared(s, config, number, merge_oid, now).state;
            assert forall|m: u64| t.testing(m) implies m == number by {
                if m != number {
                    assert(s.testing(m));
                }
            }
            assert forall|a: u64, b: u64|
                t.pulls.contains_key(a) && t.pulls.contains_key(b) && a != b && (
                #[trigger] t.pulls[a]).status.merge_oid() is Some implies t.pulls[a].status.merge_oid()
                != (#[trigger] t.pulls[b]).status.merge_oid() by {
                if a == number {
                    assert(s.pulls[b].status.merge_oid() != Some(merge_oid->0));
                } else if b == number {
                    assert(s.pulls[a].status.merge_oid() != Some(merge_oid->0));
                } else {
                    assert(s.pulls[a].status.merge_oid() != s.pulls[b].status.merge_oid());
                }
            }
        } else {
            lemma_sent_back_keeps_inv(
                s,
                config,
                number,
                text::conflict_text(s.pulls[number].author),
            );
        }
    }
}

} // verus!
