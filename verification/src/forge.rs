//! Calls to the forge, recorded in the order in which they are to be made.

use vstd::prelude::*;

verus! {

#[derive(Clone, Copy, Debug, PartialEq, Eq, Structural)]
pub enum ReactionType {
    PlusOne,
    MinusOne,
    Laugh,
    Confused,
    Heart,
    Hooray,
    Rocket,
    Eyes,
}

/// One call that changes something on the forge.
#[derive(Debug, PartialEq, Eq)]
pub enum Action {
    /// Post `body` as a comment on pull request `number`.
    CreateComment { number: u64, body: String },
    /// React to the comment or review `node_id`.
    AddReaction { node_id: String, kind: ReactionType },
    /// Put `label` on pull request `number`.
    AddLabel { number: u64, label: String },
    /// Take `label` off pull request `number`.
    RemoveLabel { number: u64, label: String },
    /// Create `label` in the repository.
    CreateLabel { label: String, color: String },
    /// Add a card for pull request `number` to the project board `board`.
    CreateCard { board: u64, number: u64 },
    /// Remove the card of pull request `number` from the project board `board`.
    DeleteCard { board: u64, number: u64 },
}

pub enum ActionView {
    CreateComment { number: u64, body: Seq<char> },
    AddReaction { node_id: Seq<char>, kind: ReactionType },
    AddLabel { number: u64, label: Seq<char> },
    RemoveLabel { number: u64, label: Seq<char> },
    CreateLabel { label: Seq<char>, color: Seq<char> },
    CreateCard { board: u64, number: u64 },
    DeleteCard { board: u64, number: u64 },
}

impl View for Action {
    type V = ActionView;

    open spec fn view(&self) -> ActionView {
        match *self {
            Action::CreateComment { number, body } => ActionView::CreateComment {
                number,
                body: body@,
            },
            Action::AddReaction { node_id, kind } => ActionView::AddReaction {
                node_id: node_id@,
                kind,
            },
            Action::AddLabel { number, label } => ActionView::AddLabel { number, label: label@ },
            Action::RemoveLabel { number, label } => ActionView::RemoveLabel {
                number,
                label: label@,
            },
            Action::CreateLabel { label, color } => ActionView::CreateLabel {
                label: label@,
                color: color@,
            },
            Action::CreateCard { board, number } => ActionView::CreateCard { board, number },
            Action::DeleteCard { board, number } => ActionView::DeleteCard { board, number },
        }
    }
}

/// The views of a list of calls, in order.
pub open spec fn views(calls: Seq<Action>) -> Seq<ActionView> {
    Seq::new(calls.len(), |i: int| calls[i]@)
}

/// The forge as the event processor sees it: a record of the calls asked for
/// and not yet handed out.
#[derive(Debug)]
pub struct GithubClient {
    pub calls: Vec<Action>,
}

impl View for GithubClient {
    type V = Seq<ActionView>;

    open spec fn view(&self) -> Seq<ActionView> {
        views(self.calls@)
    }
}

impl GithubClient {
    pub fn new() -> (r: Self)
        ensures
            r@ == Seq::<ActionView>::empty(),
    {
        let r = GithubClient { calls: Vec::new() };
        assert(r@ =~= Seq::<ActionView>::empty());
        r
    }

    /// Records `action` behind the calls already recorded.
    pub fn record(&mut self, action: Action)
        ensures
            final(self)@ == old(self)@.push(action@),
    {
        self.calls.push(action);
        assert(self@ =~= old(self)@.push(action@));
    }

    pub fn create_comment(&mut self, number: u64, body: String)
        ensures
            final(self)@ == old(self)@.push(ActionView::CreateComment { number, body: body@ }),
    {
        self.record(Action::CreateComment { number, body });
    }

    pub fn add_reaction(&mut self, node_id: &str, kind: ReactionType)
        ensures
            final(self)@ == old(self)@.push(ActionView::AddReaction { node_id: node_id@, kind }),
    {
        self.record(Action::AddReaction { node_id: String::from_str(node_id), kind });
    }

    pub fn add_label(&mut self, number: u64, label: &str)
        ensures
            final(self)@ == old(self)@.push(ActionView::AddLabel { number, label: label@ }),
    {
        self.record(Action::AddLabel { number, label: String::from_str(label) });
    }

    pub fn remove_label(&mut self, number: u64, label: &str)
        ensures
            final(self)@ == old(self)@.push(ActionView::RemoveLabel { number, label: label@ }),
    {
        self.record(Action::RemoveLabel { number, label: String::from_str(label) });
    }

    pub fn create_label(&mut self, label: &str, color: &str)
        ensures
            final(self)@ == old(self)@.push(
                ActionView::CreateLabel { label: label@, color: color@ },
            ),
    {
        self.record(
            Action::CreateLabel { label: String::from_str(label), color: String::from_str(color) },
        );
    }

    /// Hands out the recorded calls and starts a new record.
    pub fn take(&mut self) -> (r: Vec<Action>)
        ensures
            views(r@) == old(self)@,
            final(self)@ == Seq::<ActionView>::empty(),
    {
        let mut calls: Vec<Action> = Vec::new();
        std::mem::swap(&mut self.calls, &mut calls);
        assert(self@ =~= Seq::<ActionView>::empty());
        calls
    }
}


/// The project board that mirrors the queue, once it has been set up.
#[derive(Clone, Copy, Debug, PartialEq, Eq, Structural)]
pub struct ProjectBoard {
    pub id: u64,
}

impl ProjectBoard {
    /// Asks for a card for pull request `number`.
    pub fn create_card(&self, github: &mut GithubClient, number: u64)
        ensures
            final(github)@ == old(github)@.push(ActionView::CreateCard { board: self.id, number }),
    {
        github.record(Action::CreateCard { board: self.id, number });
    }

    /// Asks for the card of pull request `number` to be removed.
    pub fn delete_card(&self, github: &mut GithubClient, number: u64)
        ensures
            final(github)@ == old(github)@.push(ActionView::DeleteCard { board: self.id, number }),
    {
        github.record(Action::DeleteCard { board: self.id, number });
    }
}

/// The calls that tell the board, if there is one, that pull request
/// `number` was opened.
pub open spec fn card_created(board: Option<ProjectBoard>, number: u64) -> Seq<ActionView> {
    match board {
        Some(b) => seq![ActionView::CreateCard { board: b.id, number }],
        None => Seq::empty(),
    }
}

/// The calls that tell the board, if there is one, that pull request
/// `number` was closed.
pub open spec fn card_deleted(board: Option<ProjectBoard>, number: u64) -> Seq<ActionView> {
    match board {
        Some(b) => seq![ActionView::DeleteCard { board: b.id, number }],
        None => Seq::empty(),
    }
}

} // verus!
