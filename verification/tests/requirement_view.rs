use thread_requirement::protocol::{
    ThreadDecision, ThreadDecisionOption, ThreadDecisionStatus, ThreadDecisionUrgency,
    ThreadRequirement, ThreadRequirementReadResponse, ThreadRequirementStatus,
};
use thread_requirement::view::{
    decision_status_label, decision_status_sort_key, order_decisions_for_display,
    requirement_lines, requirement_status_label, requirement_view_action, urgency_label,
    urgency_sort_key, RequirementViewAction, StyledLine, TextStyle,
};

fn text(line: &StyledLine) -> String {
    line.spans.iter().map(|s| s.text.as_str()).collect()
}

fn texts(lines: &[StyledLine]) -> Vec<String> {
    lines.iter().map(text).collect()
}

fn decision(id: &str, urgency: ThreadDecisionUrgency, status: ThreadDecisionStatus) -> ThreadDecision {
    ThreadDecision {
        id: id.to_string(),
        thread_id: "thread-1".to_string(),
        title: id.to_string(),
        description: String::new(),
        urgency,
        status,
        options: Vec::new(),
        recommendation: None,
        source_turn_id: None,
        resolved_at: None,
        resolution: None,
        selected_option_id: None,
    }
}

fn outcome_requirement() -> ThreadRequirement {
    ThreadRequirement {
        thread_id: "thread-1".to_string(),
        objective: Some("Ship the requirements outcome view.".to_string()),
        status: ThreadRequirementStatus::WaitingOnDecision,
        summary: "The backend exposes an outcome summary ready for TUI display.".to_string(),
        decisions: vec![ThreadDecision {
            id: "decision-1".to_string(),
            thread_id: "thread-1".to_string(),
            title: "Pick the first entry point".to_string(),
            description: "Use a slash command for discoverability.".to_string(),
            urgency: ThreadDecisionUrgency::Immediate,
            status: ThreadDecisionStatus::Pending,
            options: vec![
                ThreadDecisionOption {
                    id: "opt-1".to_string(),
                    label: "/requirements".to_string(),
                    description: Some("Open the full requirement outcome.".to_string()),
                },
                ThreadDecisionOption {
                    id: "opt-2".to_string(),
                    label: "keyboard shortcut".to_string(),
                    description: None,
                },
            ],
            recommendation: Some("Start with the slash command.".to_string()),
            source_turn_id: Some("turn-1".to_string()),
            resolved_at: None,
            resolution: None,
            selected_option_id: None,
        }],
        updated_at: Some(1_776_272_400),
    }
}

#[test]
fn requirement_overlay_renders_outcome() {
    let lines = requirement_lines(&outcome_requirement());
    assert_eq!(
        texts(&lines),
        vec![
            "Objective",
            "Ship the requirements outcome view.",
            "",
            "Status",
            "waiting on decision",
            "",
            "Summary",
            "The backend exposes an outcome summary ready for TUI display.",
            "",
            "Decisions",
            "- immediate / pending: Pick the first entry point",
            "  Description: Use a slash command for discoverability.",
            "  Recommendation: Start with the slash command.",
            "  Options: /requirements (Open the full requirement outcome.); keyboard shortcut",
        ]
    );
    assert_eq!(lines[0].style, TextStyle::Bold);
    assert_eq!(lines[1].style, TextStyle::Plain);
    let header = &lines[10];
    assert_eq!(
        header.spans.iter().map(|s| s.style).collect::<Vec<_>>(),
        vec![
            TextStyle::Plain,
            TextStyle::Bold,
            TextStyle::Dim,
            TextStyle::Plain,
            TextStyle::Dim,
            TextStyle::Plain,
        ]
    );
}

#[test]
fn requirement_overlay_renders_empty_state() {
    let requirement = ThreadRequirement {
        thread_id: "thread-1".to_string(),
        objective: None,
        status: ThreadRequirementStatus::NotStarted,
        summary: String::new(),
        decisions: Vec::new(),
        updated_at: None,
    };
    let lines = requirement_lines(&requirement);
    assert_eq!(
        texts(&lines),
        vec![
            "Objective",
            "No requirement objective set",
            "",
            "Status",
            "not started",
            "",
            "Summary",
            "No outcome summary available yet",
            "",
            "Decisions",
            "No decisions recorded yet",
        ]
    );
    assert_eq!(lines[1].style, TextStyle::Italic);
    assert_eq!(lines[7].style, TextStyle::Italic);
    assert_eq!(lines[10].style, TextStyle::Plain);
}

#[test]
fn multiline_fields_are_split_and_indented() {
    let mut requirement = outcome_requirement();
    requirement.objective = Some("  first\n  second  \n".to_string());
    requirement.summary = " \n ".to_string();
    let d = &mut requirement.decisions[0];
    d.description = "  line one \n   line two".to_string();
    d.resolution = Some("   ".to_string());
    d.recommendation = None;
    d.options.clear();
    let lines = texts(&requirement_lines(&requirement));
    assert_eq!(lines[1], "first");
    assert_eq!(lines[2], "  second");
    assert_eq!(lines[8], "No outcome summary available yet");
    assert_eq!(lines[12], "  Description: line one");
    assert_eq!(lines[13], "  line two");
    assert_eq!(lines.len(), 14);
}

#[test]
fn decisions_are_shown_most_urgent_first() {
    let (imm, def) = (ThreadDecisionUrgency::Immediate, ThreadDecisionUrgency::Deferred);
    let (pending, deferred, resolved) = (
        ThreadDecisionStatus::Pending,
        ThreadDecisionStatus::Deferred,
        ThreadDecisionStatus::Resolved,
    );
    let ds = vec![
        decision("d-resolved", def, resolved),
        decision("i-deferred", imm, deferred),
        decision("d-pending", def, pending),
        decision("i-pending-1", imm, pending),
        decision("i-resolved", imm, resolved),
        decision("i-pending-2", imm, pending),
    ];
    let ordered = order_decisions_for_display(&ds);
    assert_eq!(
        ordered.iter().map(|d| d.id.as_str()).collect::<Vec<_>>(),
        vec!["i-pending-1", "i-pending-2", "i-deferred", "i-resolved", "d-pending", "d-resolved"]
    );
}

#[test]
fn labels_and_keys() {
    assert_eq!(requirement_status_label(ThreadRequirementStatus::Running), "running");
    assert_eq!(requirement_status_label(ThreadRequirementStatus::Complete), "complete");
    assert_eq!(requirement_status_label(ThreadRequirementStatus::Failed), "failed");
    assert_eq!(requirement_status_label(ThreadRequirementStatus::Unknown), "unknown");
    assert_eq!(urgency_label(ThreadDecisionUrgency::Deferred), "deferred");
    assert_eq!(decision_status_label(ThreadDecisionStatus::Resolved), "resolved");
    assert_eq!(decision_status_label(ThreadDecisionStatus::Deferred), "deferred");
    assert_eq!(urgency_sort_key(ThreadDecisionUrgency::Immediate), 0);
    assert_eq!(decision_status_sort_key(ThreadDecisionStatus::Deferred), 1);
    assert_eq!(decision_status_sort_key(ThreadDecisionStatus::Resolved), 2);
}

#[test]
fn view_actions_follow_the_displayed_thread() {
    let response = ThreadRequirementReadResponse { requirement: outcome_requirement() };
    let shown = Some("thread-1".to_string());
    assert_eq!(
        requirement_view_action(&Some("thread-2".to_string()), &"thread-1".to_string(), Ok(response.clone())),
        RequirementViewAction::Ignore
    );
    assert_eq!(
        requirement_view_action(&None, &"thread-1".to_string(), Ok(response.clone())),
        RequirementViewAction::Ignore
    );
    match requirement_view_action(&shown, &"thread-1".to_string(), Ok(response)) {
        RequirementViewAction::ShowOverlay(lines) => assert_eq!(lines.len(), 14),
        other => panic!("unexpected {other:?}"),
    }
    assert_eq!(
        requirement_view_action(&shown, &"thread-1".to_string(), Err("timeout".to_string())),
        RequirementViewAction::ShowError("Failed to read requirement outcome: timeout".to_string())
    );
}
