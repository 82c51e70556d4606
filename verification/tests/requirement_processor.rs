use thread_requirement::history::{completed_turn, RequirementSource, ThreadItem, ThreadStatus};
use thread_requirement::protocol::{
    ThreadDecision, ThreadDecisionStatus, ThreadDecisionUrgency, ThreadRequirement,
    ThreadRequirementStatus,
};
use thread_requirement::requirement::{build_thread_requirement, derive_requirement_status};
use thread_requirement::summary::{
    latest_agent_message, latest_outcome_summary, strip_fenced_code_blocks,
};

fn agent(id: &str, text: &str) -> ThreadItem {
    ThreadItem::AgentMessage { id: id.to_string(), text: text.to_string() }
}

fn plan(id: &str, text: &str) -> ThreadItem {
    ThreadItem::Plan { id: id.to_string(), text: text.to_string() }
}

#[test]
fn derives_requirement_from_latest_agent_message_and_plan_lines() {
    let turns = vec![
        completed_turn("turn-1", vec![agent("agent-1", "Initial summary")]),
        completed_turn(
            "turn-2",
            vec![
                plan("plan-1", "- Choose database\n\n2) Pick deployment target"),
                agent("agent-2", "Latest summary"),
            ],
        ),
    ];

    let requirement = build_thread_requirement(
        RequirementSource {
            thread_id: "thr_123".to_string(),
            status: ThreadStatus::NotLoaded,
            turns,
            updated_at: Some(1_700_000_000),
        },
        Some("Ship requirement view".to_string()),
    );

    assert_eq!(
        requirement,
        ThreadRequirement {
            thread_id: "thr_123".to_string(),
            objective: Some("Ship requirement view".to_string()),
            status: ThreadRequirementStatus::WaitingOnDecision,
            summary: "Latest summary".to_string(),
            decisions: vec![
                ThreadDecision {
                    id: "plan-1:0".to_string(),
                    thread_id: "thr_123".to_string(),
                    title: "Choose database".to_string(),
                    description: String::new(),
                    urgency: ThreadDecisionUrgency::Deferred,
                    status: ThreadDecisionStatus::Pending,
                    options: Vec::new(),
                    recommendation: None,
                    source_turn_id: Some("turn-2".to_string()),
                    resolved_at: None,
                    resolution: None,
                    selected_option_id: None,
                },
                ThreadDecision {
                    id: "plan-1:1".to_string(),
                    thread_id: "thr_123".to_string(),
                    title: "Pick deployment target".to_string(),
                    description: String::new(),
                    urgency: ThreadDecisionUrgency::Deferred,
                    status: ThreadDecisionStatus::Pending,
                    options: Vec::new(),
                    recommendation: None,
                    source_turn_id: Some("turn-2".to_string()),
                    resolved_at: None,
                    resolution: None,
                    selected_option_id: None,
                },
            ],
            updated_at: Some(1_700_000_000),
        }
    );
}

#[test]
fn returns_empty_decisions_when_no_plan_item_exists() {
    let turns = vec![completed_turn("turn-1", vec![agent("agent-1", "Done")])];

    let requirement = build_thread_requirement(
        RequirementSource {
            thread_id: "thr_123".to_string(),
            status: ThreadStatus::Idle,
            turns,
            updated_at: None,
        },
        None,
    );

    assert_eq!(
        requirement,
        ThreadRequirement {
            thread_id: "thr_123".to_string(),
            objective: None,
            status: ThreadRequirementStatus::Complete,
            summary: "Done".to_string(),
            decisions: Vec::new(),
            updated_at: None,
        }
    );
}

#[test]
fn requirement_summary_hides_fenced_code_blocks() {
    let turns = vec![completed_turn(
        "turn-1",
        vec![agent(
            "agent-1",
            "The requirement is implemented.\n\n```rust\nfn internal_detail() {}\n```\n\nTests passed.",
        )],
    )];

    let requirement = build_thread_requirement(
        RequirementSource {
            thread_id: "thr_123".to_string(),
            status: ThreadStatus::Idle,
            turns,
            updated_at: None,
        },
        None,
    );

    assert_eq!(requirement.summary, "The requirement is implemented.\n\nTests passed.");
}

#[test]
fn latest_agent_message_skips_blank_messages_and_looks_back_over_turns() {
    let turns = vec![
        completed_turn("turn-1", vec![agent("a", "First"), agent("b", "Second")]),
        completed_turn("turn-2", vec![agent("c", "   \n\t"), plan("p", "- x")]),
    ];
    assert_eq!(latest_agent_message(&turns), Some("Second".to_string()));
    assert_eq!(latest_agent_message(&[]), None);
}

#[test]
fn outcome_summary_is_none_when_only_code_remains() {
    let turns = vec![completed_turn("turn-1", vec![agent("a", "```\ncode only\n```")])];
    assert_eq!(latest_outcome_summary(&turns), None);
    let requirement = build_thread_requirement(
        RequirementSource {
            thread_id: "t".to_string(),
            status: ThreadStatus::Idle,
            turns,
            updated_at: None,
        },
        None,
    );
    assert_eq!(requirement.status, ThreadRequirementStatus::Unknown);
    assert_eq!(requirement.summary, "");
}

#[test]
fn strip_fenced_code_blocks_compacts_blank_lines_and_trims() {
    assert_eq!(strip_fenced_code_blocks("  a\n\n\n\nb  \n"), "a\n\nb");
    assert_eq!(strip_fenced_code_blocks("a\n   ```x\nhidden\n  ```\nb"), "a\nb");
    assert_eq!(strip_fenced_code_blocks("a\n```\nnever closed\nstill hidden"), "a");
    assert_eq!(strip_fenced_code_blocks("one\r\ntwo\r\n"), "one\ntwo");
    assert_eq!(strip_fenced_code_blocks("a\n\n```\nx\n```\n\nb"), "a\n\nb");
    assert_eq!(strip_fenced_code_blocks(""), "");
    assert_eq!(strip_fenced_code_blocks("\u{3000}wide space\u{00a0}"), "wide space");
}

#[test]
fn requirement_status_follows_thread_state() {
    let turns = vec![completed_turn("turn-1", vec![agent("a", "Done")])];
    let none: Vec<ThreadDecision> = Vec::new();
    assert_eq!(
        derive_requirement_status(&ThreadStatus::SystemError, &turns, &none),
        ThreadRequirementStatus::Failed
    );
    assert_eq!(
        derive_requirement_status(&ThreadStatus::Active, &turns, &none),
        ThreadRequirementStatus::Running
    );
    assert_eq!(
        derive_requirement_status(&ThreadStatus::Idle, &[], &none),
        ThreadRequirementStatus::NotStarted
    );
    assert_eq!(
        derive_requirement_status(&ThreadStatus::NotLoaded, &turns, &none),
        ThreadRequirementStatus::Complete
    );
    let resolved = ThreadDecision {
        id: "d".to_string(),
        thread_id: "t".to_string(),
        title: "d".to_string(),
        description: String::new(),
        urgency: ThreadDecisionUrgency::Immediate,
        status: ThreadDecisionStatus::Resolved,
        options: Vec::new(),
        recommendation: None,
        source_turn_id: None,
        resolved_at: Some(5),
        resolution: None,
        selected_option_id: None,
    };
    let mut pending = resolved.clone();
    pending.status = ThreadDecisionStatus::Pending;
    assert_eq!(
        derive_requirement_status(&ThreadStatus::Idle, &turns, &[resolved.clone()]),
        ThreadRequirementStatus::Complete
    );
    assert_eq!(
        derive_requirement_status(&ThreadStatus::Idle, &turns, &[resolved, pending]),
        ThreadRequirementStatus::WaitingOnDecision
    );
}

#[test]
fn waiting_on_decision_exactly_when_a_plan_has_titles() {
    let with_plan = vec![completed_turn("t1", vec![plan("p", "- [ ] one"), agent("a", "Done")])];
    let blank_plan = vec![completed_turn("t1", vec![plan("p", "-\n  \n* "), agent("a", "Done")])];
    let source = |turns| RequirementSource {
        thread_id: "t".to_string(),
        status: ThreadStatus::Idle,
        turns,
        updated_at: None,
    };
    let a = build_thread_requirement(source(with_plan), None);
    let b = build_thread_requirement(source(blank_plan), None);
    assert_eq!(a.status, ThreadRequirementStatus::WaitingOnDecision);
    assert_eq!(a.decisions.len(), 1);
    assert_eq!(b.status, ThreadRequirementStatus::Complete);
    assert!(b.decisions.is_empty());
}

#[test]
fn stripping_twice_changes_nothing_more() {
    let messages = [
        "  intro\n\n\n```\ncode\n```\n\n  body  \n\n",
        "```\n  ```\nshown\n   ```rust\nhidden",
        "\u{3000}\n\nonly\n\n\n\nlines\n",
        "",
    ];
    for m in messages {
        let once = strip_fenced_code_blocks(m);
        assert_eq!(strip_fenced_code_blocks(&once), once);
    }
}
