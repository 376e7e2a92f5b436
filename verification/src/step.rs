//! What the driver of the event processor has to do next.

use crate::command::Command;
use crate::forge::{views, Action, ActionView};
use crate::queue::InFlight;
use crate::state::PullView;
use crate::table::PullTable;
use vstd::prelude::*;

verus! {

/// The next thing to do for the request at hand. Each step but `Done` and
/// `Snapshot` ends in a call of the event processor that hands back what
/// the outside world answered.
#[derive(Debug, PartialEq, Eq)]
pub enum Step {
    /// The request is dealt with.
    Done,
    /// Hand the copy of the state to whoever asked for it.
    Snapshot { head: Option<InFlight>, pulls: PullTable },
    /// List the open pull requests and look up the three labels, then call
    /// `synchronize`.
    Synchronize,
    /// Wait `delay_ms` milliseconds, ask the forge for the review decision on
    /// pull request `number`, then call `review_decision`.
    ReviewDecision { number: u64, delay_ms: u64, retried: bool },
    /// Have `body` parsed for a command, then call `process_comment`.
    Parse { sender: String, number: u64, body: String, node_id: String },
    /// Find out whether `sender` may run `command`, then call `run_command`.
    Authorize { sender: String, number: u64, command: Command },
    /// Merge `head_oid` onto `base_oid` in the working copy and push the
    /// result to the branch that is tested, then call `prepared`.
    Prepare {
        number: u64,
        head_oid: String,
        base_ref: String,
        base_oid: String,
        squash: bool,
        author: String,
        message: String,
        canary: bool,
    },
    /// Move `base_ref` forward to `merge_oid`, then call `landed`.
    Land { number: u64, base_ref: String, merge_oid: String },
}

pub enum StepView {
    Done,
    Snapshot { head: Option<InFlight>, pulls: Map<u64, PullView> },
    Synchronize,
    ReviewDecision { number: u64, delay_ms: u64, retried: bool },
    Parse { sender: Seq<char>, number: u64, body: Seq<char>, node_id: Seq<char> },
    Authorize { sender: Seq<char>, number: u64, command: Command },
    Prepare {
        number: u64,
        head_oid: Seq<char>,
        base_ref: Seq<char>,
        base_oid: Seq<char>,
        squash: bool,
        author: Seq<char>,
        message: Seq<char>,
        canary: bool,
    },
    Land { number: u64, base_ref: Seq<char>, merge_oid: Seq<char> },
}

impl View for Step {
    type V = StepView;

    open spec fn view(&self) -> StepView {
        match *self {
            Step::Done => StepView::Done,
            Step::Snapshot { head, pulls } => StepView::Snapshot { head, pulls: pulls@ },
            Step::Synchronize => StepView::Synchronize,
            Step::ReviewDecision { number, delay_ms, retried } => StepView::ReviewDecision {
                number,
                delay_ms,
                retried,
            },
            Step::Parse { sender, number, body, node_id } => StepView::Parse {
                sender: sender@,
                number,
                body: body@,
                node_id: node_id@,
            },
            Step::Authorize { sender, number, command } => StepView::Authorize {
                sender: sender@,
                number,
                command,
            },
            Step::Prepare {
                number,
                head_oid,
                base_ref,
                base_oid,
                squash,
                author,
                message,
                canary,
            } => StepView::Prepare {
                number,
                head_oid: head_oid@,
                base_ref: base_ref@,
                base_oid: base_oid@,
                squash,
                author: author@,
                message: message@,
                canary,
            },
            Step::Land { number, base_ref, merge_oid } => StepView::Land {
                number,
                base_ref: base_ref@,
                merge_oid: merge_oid@,
            },
        }
    }
}

/// What one call of the event processor asks of its driver: the calls to
/// make on the forge, in order, and then the next step.
#[derive(Debug, PartialEq, Eq)]
pub struct Outcome {
    pub actions: Vec<Action>,
    pub next: Step,
}

impl Outcome {
    /// The calls to make, in order.
    pub open spec fn calls(&self) -> Seq<ActionView> {
        views(self.actions@)
    }
}

} // verus!
