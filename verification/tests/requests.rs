use thread_requirement::history::{completed_turn, RequirementSource, ThreadItem, ThreadStatus};
use thread_requirement::processor::{
    current_unix_timestamp, unix_timestamp_from_elapsed, resolve_decision, thread_decision_list, thread_decision_resolve,
    thread_requirement_read,
};
use thread_requirement::protocol::{
    ThreadDecisionListParams, ThreadDecisionResolveParams, ThreadDecisionStatus,
    ThreadDecisionUrgency, ThreadRequirementStatus,
};
use thread_requirement::thread_id::{
    hyphenated_text, thread_id_from_uuid_outcome, parse_thread_id, INTERNAL_ERROR_CODE, INVALID_REQUEST_ERROR_CODE,
};

const ID: &str = "67e55044-10b1-426f-9247-bb680e5fe0c8";

fn resolve_params(decision_id: &str, defer: bool) -> ThreadDecisionResolveParams {
    ThreadDecisionResolveParams {
        thread_id: ID.to_string(),
        decision_id: decision_id.to_string(),
        selected_option_id: Some("opt-1".to_string()),
        resolution: Some("Use Postgres".to_string()),
        defer,
    }
}

#[test]
fn thread_ids_are_written_in_canonical_form() {
    assert_eq!(parse_thread_id(ID), Ok(ID.to_string()));
    assert_eq!(
        parse_thread_id("67E55044-10B1-426F-9247-BB680E5FE0C8"),
        Ok(ID.to_string())
    );
    assert_eq!(parse_thread_id("67e5504410b1426f9247bb680e5fe0c8"), Ok(ID.to_string()));
    assert_eq!(
        parse_thread_id("{67e55044-10b1-426f-9247-bb680e5fe0c8}"),
        Ok(ID.to_string())
    );
    assert_eq!(hyphenated_text(0), "00000000-0000-0000-0000-000000000000");
    assert_eq!(hyphenated_text(u128::MAX), "ffffffff-ffff-ffff-ffff-ffffffffffff");
    assert_eq!(hyphenated_text(0x0123456789abcdef0011223344556677), "01234567-89ab-cdef-0011-223344556677");
}

#[test]
fn malformed_thread_ids_are_invalid_requests() {
    let err = parse_thread_id("thr_123").unwrap_err();
    assert_eq!(err.code, INVALID_REQUEST_ERROR_CODE);
    assert!(err.message.starts_with("invalid thread id: "));
    assert!(err.message.len() > "invalid thread id: ".len());
    let empty = parse_thread_id("").unwrap_err();
    assert_eq!(empty.code, -32600);
}

#[test]
fn resolving_records_the_decision() {
    let resolved = resolve_decision(resolve_params("  plan-1:0 ", false), ID.to_string(), Some(42))
        .unwrap()
        .decision;
    assert_eq!(resolved.id, "plan-1:0");
    assert_eq!(resolved.title, "plan-1:0");
    assert_eq!(resolved.thread_id, ID);
    assert_eq!(resolved.description, "Use Postgres");
    assert_eq!(resolved.status, ThreadDecisionStatus::Resolved);
    assert_eq!(resolved.urgency, ThreadDecisionUrgency::Deferred);
    assert_eq!(resolved.resolved_at, Some(42));
    assert_eq!(resolved.resolution.as_deref(), Some("Use Postgres"));
    assert_eq!(resolved.selected_option_id.as_deref(), Some("opt-1"));
    assert!(resolved.options.is_empty());

    let deferred = resolve_decision(resolve_params("d", true), ID.to_string(), Some(42))
        .unwrap()
        .decision;
    assert_eq!(deferred.status, ThreadDecisionStatus::Deferred);
    assert_eq!(deferred.resolved_at, None);

    let mut no_resolution = resolve_params("d", false);
    no_resolution.resolution = None;
    let d = resolve_decision(no_resolution, ID.to_string(), None).unwrap().decision;
    assert_eq!(d.description, "");
    assert_eq!(d.resolution, None);
}

#[test]
fn blank_decision_ids_are_refused() {
    let err = resolve_decision(resolve_params(" \t ", false), ID.to_string(), Some(1)).unwrap_err();
    assert_eq!(err.code, INVALID_REQUEST_ERROR_CODE);
    assert_eq!(err.message, "decisionId must not be empty");
    let err = thread_decision_resolve(resolve_params("", true)).unwrap_err();
    assert_eq!(err.message, "decisionId must not be empty");
}

#[test]
fn resolution_requests_parse_the_thread_id_first() {
    let mut params = resolve_params("", false);
    params.thread_id = "nope".to_string();
    let err = thread_decision_resolve(params).unwrap_err();
    assert!(err.message.starts_with("invalid thread id: "));

    let mut upper = resolve_params("d", true);
    upper.thread_id = ID.to_uppercase();
    let deferred = thread_decision_resolve(upper).unwrap().decision;
    assert_eq!(deferred.thread_id, ID);
    assert_eq!(deferred.resolved_at, None);

    let resolved = thread_decision_resolve(resolve_params("d", false)).unwrap().decision;
    assert_eq!(resolved.status, ThreadDecisionStatus::Resolved);
    assert!(resolved.resolved_at.unwrap() > 1_600_000_000);
    assert!(current_unix_timestamp().unwrap() > 1_600_000_000);
    assert_ne!(INTERNAL_ERROR_CODE, INVALID_REQUEST_ERROR_CODE);
}

fn source() -> RequirementSource {
    RequirementSource {
        thread_id: ID.to_string(),
        status: ThreadStatus::Idle,
        turns: vec![completed_turn(
            "turn-1",
            vec![
                ThreadItem::Plan { id: "p".to_string(), text: "1. a\n2. b".to_string() },
                ThreadItem::AgentMessage { id: "m".to_string(), text: "All set".to_string() },
            ],
        )],
        updated_at: Some(7),
    }
}

#[test]
fn unfiltered_list_matches_the_requirement_read() {
    let read = thread_requirement_read(source(), Some("Goal".to_string()));
    let list = thread_decision_list(
        &ThreadDecisionListParams { thread_id: ID.to_string(), status: None, urgency: None },
        &source(),
    );
    assert_eq!(list.data, read.requirement.decisions);
    assert_eq!(read.requirement.status, ThreadRequirementStatus::WaitingOnDecision);
    assert_eq!(read.requirement.objective.as_deref(), Some("Goal"));
    assert_eq!(read.requirement.updated_at, Some(7));
}

#[test]
fn filtered_lists_keep_only_matching_decisions() {
    let list = thread_decision_list(
        &ThreadDecisionListParams {
            thread_id: ID.to_string(),
            status: Some(ThreadDecisionStatus::Pending),
            urgency: Some(ThreadDecisionUrgency::Immediate),
        },
        &source(),
    );
    assert!(list.data.is_empty());
    let list = thread_decision_list(
        &ThreadDecisionListParams {
            thread_id: ID.to_string(),
            status: Some(ThreadDecisionStatus::Pending),
            urgency: Some(ThreadDecisionUrgency::Deferred),
        },
        &source(),
    );
    assert_eq!(list.data.iter().map(|d| d.id.as_str()).collect::<Vec<_>>(), vec!["p:0", "p:1"]);
}

#[test]
fn timestamps_and_parse_outcomes_map_exactly() {
    assert_eq!(unix_timestamp_from_elapsed(Some(1_700_000_000)), Some(1_700_000_000));
    assert_eq!(unix_timestamp_from_elapsed(None), None);
    assert_eq!(unix_timestamp_from_elapsed(Some(u64::MAX)), Some(-1));
    assert_eq!(
        thread_id_from_uuid_outcome(Ok(0x67e5504410b1426f9247bb680e5fe0c8)),
        Ok(ID.to_string())
    );
    let err = thread_id_from_uuid_outcome(Err("bad".to_string())).unwrap_err();
    assert_eq!(err.code, INVALID_REQUEST_ERROR_CODE);
    assert_eq!(err.message, "invalid thread id: bad");
}
