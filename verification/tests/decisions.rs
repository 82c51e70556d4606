use thread_requirement::decisions::{
    clean_plan_line, derive_decisions, filter_decisions, plan_decision_titles,
};
use thread_requirement::history::{completed_turn, ThreadItem};
use thread_requirement::protocol::{ThreadDecisionStatus, ThreadDecisionUrgency};

#[test]
fn clean_plan_line_removes_markers() {
    assert_eq!(clean_plan_line("- Choose database"), "Choose database");
    assert_eq!(clean_plan_line("2) Pick deployment target"), "Pick deployment target");
    assert_eq!(clean_plan_line("  * [ ] Write tests  "), "Write tests");
    assert_eq!(clean_plan_line("+ [x] Done item"), "Done item");
    assert_eq!(clean_plan_line("--+ 12. Twelfth"), "Twelfth");
    assert_eq!(clean_plan_line("3.) Mixed marks"), "Mixed marks");
    assert_eq!(clean_plan_line("...dots"), "dots");
    assert_eq!(clean_plan_line("2024 roadmap"), "2024 roadmap");
    assert_eq!(clean_plan_line("2024"), "2024");
    assert_eq!(clean_plan_line("[X] upper case box stays"), "[X] upper case box stays");
    assert_eq!(clean_plan_line("   "), "");
    assert_eq!(clean_plan_line("- "), "");
}

#[test]
fn plan_titles_skip_empty_lines() {
    assert_eq!(
        plan_decision_titles("- Choose database\n\n2) Pick deployment target"),
        vec!["Choose database".to_string(), "Pick deployment target".to_string()]
    );
    assert_eq!(plan_decision_titles(""), Vec::<String>::new());
    assert_eq!(plan_decision_titles("a\r\nb\r\n"), vec!["a".to_string(), "b".to_string()]);
}

#[test]
fn decision_ids_count_titles_per_plan() {
    let text = (0..12).map(|i| format!("- step {i}")).collect::<Vec<_>>().join("\n");
    let turns = vec![
        completed_turn(
            "turn-1",
            vec![
                ThreadItem::Plan { id: "plan-a".to_string(), text },
                ThreadItem::Other { id: "cmd".to_string() },
            ],
        ),
        completed_turn(
            "turn-2",
            vec![ThreadItem::Plan { id: "plan-b".to_string(), text: "1. only".to_string() }],
        ),
    ];
    let decisions = derive_decisions("thr", &turns);
    assert_eq!(decisions.len(), 13);
    assert_eq!(decisions[0].id, "plan-a:0");
    assert_eq!(decisions[10].id, "plan-a:10");
    assert_eq!(decisions[11].id, "plan-a:11");
    assert_eq!(decisions[11].title, "step 11");
    assert_eq!(decisions[12].id, "plan-b:0");
    assert_eq!(decisions[12].title, "only");
    assert_eq!(decisions[12].source_turn_id.as_deref(), Some("turn-2"));
    assert!(decisions.iter().all(|d| d.thread_id == "thr"
        && d.status == ThreadDecisionStatus::Pending
        && d.urgency == ThreadDecisionUrgency::Deferred));
}

#[test]
fn filters_keep_order_and_match_both_keys() {
    let turns = vec![completed_turn(
        "t",
        vec![ThreadItem::Plan { id: "p".to_string(), text: "a\nb\nc".to_string() }],
    )];
    let mut decisions = derive_decisions("thr", &turns);
    decisions[1].status = ThreadDecisionStatus::Resolved;
    decisions[2].urgency = ThreadDecisionUrgency::Immediate;
    let pending = filter_decisions(&decisions, Some(ThreadDecisionStatus::Pending), None);
    assert_eq!(pending.iter().map(|d| d.title.as_str()).collect::<Vec<_>>(), vec!["a", "c"]);
    let both = filter_decisions(
        &decisions,
        Some(ThreadDecisionStatus::Pending),
        Some(ThreadDecisionUrgency::Deferred),
    );
    assert_eq!(both.iter().map(|d| d.title.as_str()).collect::<Vec<_>>(), vec!["a"]);
    let all = filter_decisions(&decisions, None, None);
    assert_eq!(all, decisions);
    let none = filter_decisions(&decisions, Some(ThreadDecisionStatus::Deferred), None);
    assert!(none.is_empty());
}

#[test]
fn filtering_by_both_keys_equals_filtering_one_after_the_other() {
    let turns = vec![completed_turn(
        "t",
        vec![ThreadItem::Plan { id: "p".to_string(), text: "a\nb\nc\nd".to_string() }],
    )];
    let mut decisions = derive_decisions("thr", &turns);
    decisions[0].urgency = ThreadDecisionUrgency::Immediate;
    decisions[1].status = ThreadDecisionStatus::Resolved;
    decisions[1].urgency = ThreadDecisionUrgency::Immediate;
    decisions[3].urgency = ThreadDecisionUrgency::Immediate;
    let at_once = filter_decisions(
        &decisions,
        Some(ThreadDecisionStatus::Pending),
        Some(ThreadDecisionUrgency::Immediate),
    );
    let by_status = filter_decisions(&decisions, Some(ThreadDecisionStatus::Pending), None);
    let one_after_the_other =
        filter_decisions(&by_status, None, Some(ThreadDecisionUrgency::Immediate));
    assert_eq!(at_once, one_after_the_other);
    assert_eq!(at_once.iter().map(|d| d.id.as_str()).collect::<Vec<_>>(), vec!["p:0", "p:3"]);
}

#[test]
fn decision_ids_stay_distinct_across_plans() {
    let turns = vec![
        completed_turn(
            "t1",
            vec![ThreadItem::Plan { id: "a".to_string(), text: "x\ny".to_string() }],
        ),
        completed_turn(
            "t2",
            vec![ThreadItem::Plan { id: "a:1".to_string(), text: "z".to_string() }],
        ),
    ];
    let ids = derive_decisions("thr", &turns).into_iter().map(|d| d.id).collect::<Vec<_>>();
    assert_eq!(ids, vec!["a:0", "a:1", "a:1:0"]);
}
