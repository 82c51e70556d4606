//! Where the source of a requirement comes from: the thread store's record
//! of the thread, or, when the store has none, the live thread; and which
//! state database the thread's goal is looked up in.
use vstd::prelude::*;
use vstd::string::StringExecFns;
use crate::history::{turn_views, RequirementSource, SourceView, ThreadStatus, Turn, TurnView};
use crate::protocol::opt_text;
use crate::thread_id::{
    internal_error, invalid_request, JsonRpcError, JsonRpcErrorView, INTERNAL_ERROR_CODE,
    INVALID_REQUEST_ERROR_CODE,
};

verus! {

/// A thread as the thread store records it: when it was last updated (Unix
/// seconds) and the turns of its history, when the history was read.
#[derive(Debug, Clone, PartialEq, Eq)]
pub struct StoredThread {
    pub updated_at: i64,
    pub turns: Option<Vec<Turn>>,
}

/// The kind of an error of the thread store.
#[derive(Debug, Clone, PartialEq, Eq)]
pub enum StoreErrorKind {
    InvalidRequest { message: String },
    /// The store has no thread with this (canonical) id.
    ThreadNotFound { thread_id: String },
    Unsupported { operation: String },
    Other,
}

/// An error of the thread store, with the text it displays.
#[derive(Debug, Clone, PartialEq, Eq)]
pub struct StoreReadError {
    pub kind: StoreErrorKind,
    pub description: String,
}

/// What to do with what the thread store answered.
#[derive(Debug, Clone, PartialEq, Eq)]
pub enum StoreReadResolution {
    /// The store's record is the source.
    Loaded(RequirementSource),
    /// The store has no record of the thread: read the live thread instead.
    ReadLiveThread,
    /// Refuse the request with this error.
    Refused(JsonRpcError),
    /// Refuse the request as an operation that the store does not support.
    Unsupported { operation: String },
}

pub enum ResolutionView {
    Loaded(SourceView),
    ReadLiveThread,
    Refused(JsonRpcErrorView),
    Unsupported(Seq<char>),
}

impl View for StoreReadResolution {
    type V = ResolutionView;

    open spec fn view(&self) -> ResolutionView {
        match self {
            StoreReadResolution::Loaded(s) => ResolutionView::Loaded(s@),
            StoreReadResolution::ReadLiveThread => ResolutionView::ReadLiveThread,
            StoreReadResolution::Refused(e) => ResolutionView::Refused(e@),
            StoreReadResolution::Unsupported { operation } => ResolutionView::Unsupported(
                operation@,
            ),
        }
    }
}

/// The message with which the store says it has no rollout of the thread.
pub open spec fn no_rollout_message(thread_id: Seq<char>) -> Seq<char> {
    "no rollout found for thread id "@ + thread_id
}

pub open spec fn read_failure_message(description: Seq<char>) -> Seq<char> {
    "failed to read thread requirement: "@ + description
}

/// What to do with the store's answer for the thread with canonical id
/// `thread_id`: a record becomes a source that is not loaded, with its turns
/// (none when the history was not read) and its update time; a missing
/// rollout or a missing thread of that very id sends the reader to the live
/// thread; an invalid request is refused with the store's message; an
/// unsupported operation is refused as such; any other error is an internal
/// error that quotes it.
pub open spec fn store_read_resolution(
    thread_id: Seq<char>,
    read: Result<StoredThread, StoreReadError>,
) -> ResolutionView {
    match read {
        Ok(stored) => ResolutionView::Loaded(
            SourceView {
                thread_id,
                status: ThreadStatus::NotLoaded,
                turns: match stored.turns {
                    Some(t) => turn_views(t@),
                    None => Seq::empty(),
                },
                updated_at: Some(stored.updated_at),
            },
        ),
        Err(err) => match err.kind {
            StoreErrorKind::InvalidRequest { message } => if message@ == no_rollout_message(
                thread_id,
            ) {
                ResolutionView::ReadLiveThread
            } else {
                ResolutionView::Refused(
                    JsonRpcErrorView { code: INVALID_REQUEST_ERROR_CODE, message: message@ },
                )
            },
            StoreErrorKind::ThreadNotFound { thread_id: missing } => if missing@ == thread_id {
                ResolutionView::ReadLiveThread
            } else {
                ResolutionView::Refused(
                    JsonRpcErrorView {
                        code: INTERNAL_ERROR_CODE,
                        message: read_failure_message(err.description@),
                    },
                )
            },
            StoreErrorKind::Unsupported { operation } => ResolutionView::Unsupported(operation@),
            StoreErrorKind::Other => ResolutionView::Refused(
                JsonRpcErrorView {
                    code: INTERNAL_ERROR_CODE,
                    message: read_failure_message(err.description@),
                },
            ),
        },
    }
}

/// What to do with the store's answer for the thread with canonical id `thread_id`.
pub fn resolve_store_read(thread_id: &str, read: Result<StoredThread, StoreReadError>) -> (r:
    StoreReadResolution)
    ensures
        r@ == store_read_resolution(thread_id@, read),
{
    let ghost read0 = read;
    match read {
        Ok(stored) => {
            let turns = match stored.turns {
                Some(t) => t,
                None => Vec::new(),
            };
            proof {
                if read0->Ok_0.turns is None {
                    assert(turn_views(turns@) =~= Seq::<TurnView>::empty());
                }
            }
            StoreReadResolution::Loaded(
                RequirementSource {
                    thread_id: thread_id.to_string(),
                    status: ThreadStatus::NotLoaded,
                    turns,
                    updated_at: Some(stored.updated_at),
                },
            )
        },
        Err(err) => match err.kind {
            StoreErrorKind::InvalidRequest { message } => {
                let expected = String::from_str("no rollout found for thread id ").concat(thread_id);
                if message == expected {
                    StoreReadResolution::ReadLiveThread
                } else {
                    StoreReadResolution::Refused(invalid_request(message))
                }
            },
            StoreErrorKind::ThreadNotFound { thread_id: missing } => {
                let this = thread_id.to_string();
                if missing == this {
                    StoreReadResolution::ReadLiveThread
                } else {
                    let message = String::from_str("failed to read thread requirement: ").concat(
                        err.description.as_str(),
                    );
                    StoreReadResolution::Refused(internal_error(message))
                }
            },
            StoreErrorKind::Unsupported { operation } => StoreReadResolution::Unsupported {
                operation,
            },
            StoreErrorKind::Other => {
                let message = String::from_str("failed to read thread requirement: ").concat(
                    err.description.as_str(),
                );
                StoreReadResolution::Refused(internal_error(message))
            },
        },
    }
}

/// The state of a live thread's agent.
#[derive(Debug, Clone, PartialEq, Eq)]
pub enum AgentStatus {
    PendingInit,
    Running,
    Interrupted,
    Completed(Option<String>),
    Errored(String),
    Shutdown,
    NotFound,
}

/// The thread state that an agent state stands for: running or starting is
/// active, an error is a system error, a stopped agent is idle, and a missing
/// one is not loaded.
pub open spec fn thread_status_of(agent: AgentStatus) -> ThreadStatus {
    match agent {
        AgentStatus::Running | AgentStatus::PendingInit => ThreadStatus::Active,
        AgentStatus::Errored(_) => ThreadStatus::SystemError,
        AgentStatus::Interrupted | AgentStatus::Completed(_) | AgentStatus::Shutdown => ThreadStatus::Idle,
        AgentStatus::NotFound => ThreadStatus::NotLoaded,
    }
}

/// The thread state that an agent state stands for.
pub fn thread_status_for_agent(agent: &AgentStatus) -> (r: ThreadStatus)
    ensures
        r == thread_status_of(*agent),
{
    match agent {
        AgentStatus::Running | AgentStatus::PendingInit => ThreadStatus::Active,
        AgentStatus::Errored(_) => ThreadStatus::SystemError,
        AgentStatus::Interrupted | AgentStatus::Completed(_) | AgentStatus::Shutdown => ThreadStatus::Idle,
        AgentStatus::NotFound => ThreadStatus::NotLoaded,
    }
}

/// How the history of a live thread is read: with archived items.
#[derive(Debug, Clone, Copy, PartialEq, Eq, Structural)]
pub struct HistoryReadRequest {
    pub include_archived: bool,
}

/// Whether and how the history of a live thread is read: not at all for an
/// ephemeral thread, which keeps none; otherwise with archived items.
pub fn live_history_request(ephemeral: bool) -> (r: Option<HistoryReadRequest>)
    ensures
        r is Some <==> !ephemeral,
        r matches Some(req) ==> req.include_archived,
{
    if ephemeral {
        None
    } else {
        Some(HistoryReadRequest { include_archived: true })
    }
}

/// What the thread store is asked for: the thread with the given canonical
/// id, archived or not, with its history.
#[derive(Debug, Clone, PartialEq, Eq)]
pub struct StoreReadRequest {
    pub thread_id: String,
    pub include_archived: bool,
    pub include_history: bool,
}

/// The request to the thread store for the thread with canonical id
/// `thread_id`: archived threads included, history included.
pub fn store_read_request(thread_id: &str) -> (r: StoreReadRequest)
    ensures
        r.thread_id@ == thread_id@,
        r.include_archived,
        r.include_history,
{
    StoreReadRequest { thread_id: thread_id.to_string(), include_archived: true, include_history: true }
}

/// The turns a live thread contributes: none for an ephemeral thread
/// (whatever `history` holds); otherwise those of its history when reading
/// it succeeded (`Some(Ok(..))`), and none when it was not read or failed.
pub open spec fn live_turns(ephemeral: bool, history: Option<Result<Vec<Turn>, String>>) -> Seq<
    TurnView,
> {
    if ephemeral {
        Seq::empty()
    } else {
        match history {
            Some(Ok(t)) => turn_views(t@),
            _ => Seq::empty(),
        }
    }
}

/// The source read from a live thread: its state from its agent, the turns
/// of `live_turns`, and no update time. A history read failure is not an
/// error of the request: it leaves the source without turns.
pub fn live_requirement_source(
    thread_id: String,
    agent: &AgentStatus,
    ephemeral: bool,
    history: Option<Result<Vec<Turn>, String>>,
) -> (r: RequirementSource)
    ensures
        r@ == (SourceView {
            thread_id: thread_id@,
            status: thread_status_of(*agent),
            turns: live_turns(ephemeral, history),
            updated_at: None,
        }),
{
    let ghost h = history;
    let turns = if ephemeral {
        Vec::new()
    } else {
        match history {
            Some(Ok(t)) => t,
            _ => Vec::new(),
        }
    };
    proof {
        if ephemeral || !(h matches Some(Ok(_))) {
            assert(turn_views(turns@) =~= Seq::<TurnView>::empty());
        }
    }
    RequirementSource {
        thread_id,
        status: thread_status_for_agent(agent),
        turns,
        updated_at: None,
    }
}

/// The refusal of a read for a thread that the live threads do not hold.
pub fn thread_not_found_error(thread_id: &str) -> (e: JsonRpcError)
    ensures
        e@ == (JsonRpcErrorView {
            code: INVALID_REQUEST_ERROR_CODE,
            message: "thread not found: "@ + thread_id@,
        }),
{
    invalid_request(String::from_str("thread not found: ").concat(thread_id))
}

/// Whether the thread's goal is looked up at all: only when goals are on.
/// When they are off, neither the thread nor its goal is read.
pub fn goal_lookup_needed(goals_enabled: bool) -> (r: bool)
    ensures
        r == goals_enabled,
{
    goals_enabled
}

/// The state database to look the thread's goal up in: none when goals are
/// off; otherwise the thread's own, or else the default one.
pub fn goal_state_db<T>(goals_enabled: bool, thread_state_db: Option<T>, default_state_db: Option<T>) -> (r:
    Option<T>)
    ensures
        r == (if !goals_enabled {
            None
        } else {
            match thread_state_db {
                Some(d) => Some(d),
                None => default_state_db,
            }
        }),
{
    if !goals_enabled {
        return None;
    }
    match thread_state_db {
        Some(d) => Some(d),
        None => default_state_db,
    }
}

/// The objective of the thread's goal, from the goal lookup: nothing when
/// there is no goal or the lookup failed.
pub fn goal_objective(lookup: Result<Option<String>, String>) -> (r: Option<String>)
    ensures
        opt_text(r) == (match lookup {
            Ok(Some(o)) => Some(o@),
            _ => None,
        }),
{
    match lookup {
        Ok(Some(o)) => Some(o),
        _ => None,
    }
}

} // verus!
