//! The state of the event processor as a mathematical value, and what holds
//! of it between any two requests.

use crate::forge::ActionView;
use crate::queue::{keyed, InFlight};
use crate::state::PullView;
use crate::step::StepView;
use vstd::prelude::*;

verus! {

/// The table of open pull requests and the queue's reference to the one
/// under test.
pub struct State {
    pub pulls: Map<u64, PullView>,
    pub head: Option<InFlight>,
}

/// Whether the merge commit `oid` belongs to no pull request of `pulls`.
pub open spec fn unused(pulls: Map<u64, PullView>, oid: Seq<char>) -> bool {
    forall|n: u64|
        pulls.contains_key(n) ==> (#[trigger] pulls[n]).status.merge_oid() != Some(oid)
}

/// Where a transition leads: the state after it, the calls it asks for and
/// the step that follows.
pub struct Progress {
    pub state: State,
    pub calls: Seq<ActionView>,
    pub next: StepView,
}

impl State {
    /// The number of the pull request under test: the one the queue refers
    /// to, as long as it is in the table and still being tested.
    pub open spec fn in_flight(self) -> Option<u64> {
        match self.head {
            Some(f) => if self.pulls.contains_key(f.number)
                && self.pulls[f.number].status is Testing {
                Some(f.number)
            } else {
                None
            },
            None => None,
        }
    }

    /// Whether pull request `n` is in the table and being tested for a merge.
    pub open spec fn testing(self, n: u64) -> bool {
        self.pulls.contains_key(n) && self.pulls[n].status is Testing
    }

    /// What holds between requests: every pull request stands under its own
    /// number; only the pull request that the queue refers to is being
    /// tested for a merge; merge commits are not empty, and no two pull
    /// requests have the same; a queued pull request is queued at its own
    /// priority.
    pub open spec fn inv(self) -> bool {
        &&& keyed(self.pulls)
        &&& forall|n: u64| self.testing(n) ==> self.head is Some && self.head->0.number == n
        &&& forall|n: u64, m: u64|
            self.pulls.contains_key(n) && self.pulls.contains_key(m) && n != m && (
            #[trigger] self.pulls[n]).status.merge_oid() is Some ==> self.pulls[n].status.merge_oid()
                != (#[trigger] self.pulls[m]).status.merge_oid()
        &&& forall|n: u64|
            self.pulls.contains_key(n) && (#[trigger] self.pulls[n]).status.merge_oid() is Some
                ==> self.pulls[n].status.merge_oid()->0.len() > 0
        &&& forall|n: u64|
            self.pulls.contains_key(n) && (#[trigger] self.pulls[n]).status is Queued
                ==> self.pulls[n].status->Queued_priority == self.pulls[n].priority
    }
}

} // verus!
