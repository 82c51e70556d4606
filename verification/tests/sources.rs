use thread_requirement::history::{completed_turn, RequirementSource, ThreadStatus};
use thread_requirement::source::{
    goal_lookup_needed, goal_objective, goal_state_db, live_history_request, live_requirement_source,
    store_read_request, HistoryReadRequest, resolve_store_read,
    thread_not_found_error, thread_status_for_agent, AgentStatus, StoreErrorKind, StoreReadError,
    StoreReadResolution, StoredThread,
};
use thread_requirement::thread_id::{JsonRpcError, INTERNAL_ERROR_CODE, INVALID_REQUEST_ERROR_CODE};

const ID: &str = "67e55044-10b1-426f-9247-bb680e5fe0c8";

fn err(kind: StoreErrorKind, description: &str) -> Result<StoredThread, StoreReadError> {
    Err(StoreReadError { kind, description: description.to_string() })
}

#[test]
fn stored_threads_become_sources() {
    let turns = vec![completed_turn("t", Vec::new())];
    let r = resolve_store_read(ID, Ok(StoredThread { updated_at: 99, turns: Some(turns.clone()) }));
    assert_eq!(
        r,
        StoreReadResolution::Loaded(RequirementSource {
            thread_id: ID.to_string(),
            status: ThreadStatus::NotLoaded,
            turns,
            updated_at: Some(99),
        })
    );
    let r = resolve_store_read(ID, Ok(StoredThread { updated_at: 1, turns: None }));
    match r {
        StoreReadResolution::Loaded(s) => assert!(s.turns.is_empty()),
        other => panic!("unexpected {other:?}"),
    }
}

#[test]
fn missing_threads_fall_back_to_the_live_thread() {
    let message = format!("no rollout found for thread id {ID}");
    assert_eq!(
        resolve_store_read(ID, err(StoreErrorKind::InvalidRequest { message }, "x")),
        StoreReadResolution::ReadLiveThread
    );
    assert_eq!(
        resolve_store_read(ID, err(StoreErrorKind::ThreadNotFound { thread_id: ID.to_string() }, "x")),
        StoreReadResolution::ReadLiveThread
    );
}

#[test]
fn other_store_errors_refuse_the_request() {
    assert_eq!(
        resolve_store_read(
            ID,
            err(StoreErrorKind::InvalidRequest { message: "bad cursor".to_string() }, "x")
        ),
        StoreReadResolution::Refused(JsonRpcError {
            code: INVALID_REQUEST_ERROR_CODE,
            message: "bad cursor".to_string(),
        })
    );
    assert_eq!(
        resolve_store_read(
            ID,
            err(StoreErrorKind::ThreadNotFound { thread_id: "other".to_string() }, "thread other not found")
        ),
        StoreReadResolution::Refused(JsonRpcError {
            code: INTERNAL_ERROR_CODE,
            message: "failed to read thread requirement: thread other not found".to_string(),
        })
    );
    assert_eq!(
        resolve_store_read(ID, err(StoreErrorKind::Other, "disk on fire")),
        StoreReadResolution::Refused(JsonRpcError {
            code: INTERNAL_ERROR_CODE,
            message: "failed to read thread requirement: disk on fire".to_string(),
        })
    );
    assert_eq!(
        resolve_store_read(
            ID,
            err(StoreErrorKind::Unsupported { operation: "read_thread".to_string() }, "x")
        ),
        StoreReadResolution::Unsupported { operation: "read_thread".to_string() }
    );
}

#[test]
fn live_threads_take_their_state_from_the_agent() {
    assert_eq!(thread_status_for_agent(&AgentStatus::Running), ThreadStatus::Active);
    assert_eq!(thread_status_for_agent(&AgentStatus::PendingInit), ThreadStatus::Active);
    assert_eq!(
        thread_status_for_agent(&AgentStatus::Errored("boom".to_string())),
        ThreadStatus::SystemError
    );
    assert_eq!(thread_status_for_agent(&AgentStatus::Interrupted), ThreadStatus::Idle);
    assert_eq!(thread_status_for_agent(&AgentStatus::Completed(None)), ThreadStatus::Idle);
    assert_eq!(thread_status_for_agent(&AgentStatus::Shutdown), ThreadStatus::Idle);
    assert_eq!(thread_status_for_agent(&AgentStatus::NotFound), ThreadStatus::NotLoaded);

    let turns = vec![completed_turn("t", Vec::new())];
    let s = live_requirement_source(
        ID.to_string(),
        &AgentStatus::Running,
        false,
        Some(Ok(turns.clone())),
    );
    assert_eq!(s.turns, turns);
    assert_eq!(s.status, ThreadStatus::Active);
    assert_eq!(s.updated_at, None);
    let s = live_requirement_source(
        ID.to_string(),
        &AgentStatus::Shutdown,
        false,
        Some(Err("io".to_string())),
    );
    assert!(s.turns.is_empty());
    let s = live_requirement_source(ID.to_string(), &AgentStatus::Shutdown, false, None);
    assert!(s.turns.is_empty());
    assert_eq!(
        thread_not_found_error(ID),
        JsonRpcError { code: INVALID_REQUEST_ERROR_CODE, message: format!("thread not found: {ID}") }
    );
}

#[test]
fn ephemeral_threads_have_no_history() {
    assert_eq!(live_history_request(true), None);
    assert_eq!(live_history_request(false), Some(HistoryReadRequest { include_archived: true }));
    let turns = vec![completed_turn("t", Vec::new())];
    let s = live_requirement_source(ID.to_string(), &AgentStatus::Running, true, Some(Ok(turns)));
    assert!(s.turns.is_empty());
    let s = live_requirement_source(ID.to_string(), &AgentStatus::Running, true, None);
    assert!(s.turns.is_empty());
    assert_eq!(s.status, ThreadStatus::Active);
}

#[test]
fn goals_are_read_only_when_enabled() {
    assert!(!goal_lookup_needed(false));
    assert!(goal_lookup_needed(true));
    assert_eq!(goal_state_db(false, Some(1), Some(2)), None);
    assert_eq!(goal_state_db(true, Some(1), Some(2)), Some(1));
    assert_eq!(goal_state_db(true, None, Some(2)), Some(2));
    assert_eq!(goal_state_db::<u8>(true, None, None), None);
    assert_eq!(goal_objective(Ok(Some("Ship".to_string()))), Some("Ship".to_string()));
    assert_eq!(goal_objective(Ok(None)), None);
    assert_eq!(goal_objective(Err("db locked".to_string())), None);
}

#[test]
fn the_store_is_asked_for_archived_threads_with_history() {
    let r = store_read_request(ID);
    assert_eq!(r.thread_id, ID);
    assert!(r.include_archived);
    assert!(r.include_history);
}
