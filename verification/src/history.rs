//! The thread history that a requirement is derived from: turns and the
//! items they hold, reduced to what the derivation reads.
use vstd::prelude::*;

verus! {

#[derive(Debug, Clone, Copy, PartialEq, Eq, Structural)]
pub enum TurnStatus {
    Completed,
    Interrupted,
    Failed,
    InProgress,
}

/// One item of a turn. Items of every kind that the requirement surface does
/// not read are `Other`.
#[derive(Debug, Clone, PartialEq, Eq)]
pub enum ThreadItem {
    AgentMessage { id: String, text: String },
    Plan { id: String, text: String },
    Other { id: String },
}

pub enum ItemView {
    AgentMessage { id: Seq<char>, text: Seq<char> },
    Plan { id: Seq<char>, text: Seq<char> },
    Other { id: Seq<char> },
}

impl View for ThreadItem {
    type V = ItemView;

    open spec fn view(&self) -> ItemView {
        match self {
            ThreadItem::AgentMessage { id, text } => ItemView::AgentMessage { id: id@, text: text@ },
            ThreadItem::Plan { id, text } => ItemView::Plan { id: id@, text: text@ },
            ThreadItem::Other { id } => ItemView::Other { id: id@ },
        }
    }
}

pub open spec fn item_views(s: Seq<ThreadItem>) -> Seq<ItemView> {
    s.map_values(|i: ThreadItem| i@)
}

#[derive(Debug, Clone, PartialEq, Eq)]
pub struct Turn {
    pub id: String,
    pub items: Vec<ThreadItem>,
    pub status: TurnStatus,
}

pub struct TurnView {
    pub id: Seq<char>,
    pub items: Seq<ItemView>,
    pub status: TurnStatus,
}

impl View for Turn {
    type V = TurnView;

    open spec fn view(&self) -> TurnView {
        TurnView { id: self.id@, items: item_views(self.items@), status: self.status }
    }
}

pub open spec fn turn_views(s: Seq<Turn>) -> Seq<TurnView> {
    s.map_values(|t: Turn| t@)
}

/// Every item of the turns, turn after turn, in order.
pub open spec fn history_items(turns: Seq<TurnView>) -> Seq<ItemView>
    decreases turns.len(),
{
    if turns.len() == 0 {
        Seq::empty()
    } else {
        history_items(turns.drop_last()) + turns.last().items
    }
}

/// The state of a thread as the requirement surface sees it.
#[derive(Debug, Clone, Copy, PartialEq, Eq, Structural)]
pub enum ThreadStatus {
    NotLoaded,
    Idle,
    SystemError,
    Active,
}

/// What a requirement is built from: the thread, its state, its turns and
/// when it was last updated.
#[derive(Debug, Clone, PartialEq, Eq)]
pub struct RequirementSource {
    pub thread_id: String,
    pub status: ThreadStatus,
    pub turns: Vec<Turn>,
    pub updated_at: Option<i64>,
}

pub struct SourceView {
    pub thread_id: Seq<char>,
    pub status: ThreadStatus,
    pub turns: Seq<TurnView>,
    pub updated_at: Option<i64>,
}

impl View for RequirementSource {
    type V = SourceView;

    open spec fn view(&self) -> SourceView {
        SourceView {
            thread_id: self.thread_id@,
            status: self.status,
            turns: turn_views(self.turns@),
            updated_at: self.updated_at,
        }
    }
}

/// A completed turn with the given id and items.
pub fn completed_turn(id: &str, items: Vec<ThreadItem>) -> (t: Turn)
    ensures
        t@ == (TurnView { id: id@, items: item_views(items@), status: TurnStatus::Completed }),
{
    Turn { id: id.to_string(), items, status: TurnStatus::Completed }
}

} // verus!
