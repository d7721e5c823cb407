use bob_bar::json_scan::{extract_json_array_static, extract_json_object, ExtractError};
use bob_bar::research::{
    assign_workers, combine_results, gap_worker_budget, is_debate_approved, is_document_approved,
    is_plan_approved, needs_summary, no_plan_answer, plan_memory_content, plan_outcome,
    plan_strategy, progress_note, should_request_gaps, truncate_with_notice, worker_error_answer,
    AgentRole, PlanError, QuestionAssignment, SubQuestion, WorkerDispatch, WorkerResult,
};
use bob_bar::supervisor::{default_midpoint, is_no_gaps, should_skip_review, take_gap_questions};

fn worker(name: &str, role: &str) -> AgentRole {
    AgentRole {
        name: name.to_string(),
        role: role.to_string(),
        description: String::new(),
        system_prompt: String::new(),
        available_tools: vec![],
    }
}

fn assignment(q: &str, w: &str) -> QuestionAssignment {
    QuestionAssignment { question: q.to_string(), worker: w.to_string() }
}

#[test]
fn empty_plan_scenario() {
    assert_eq!(plan_outcome(&vec![]), Some("Unable to decompose query into sub-questions.".to_string()));
    assert_eq!(no_plan_answer(), "Unable to decompose query into sub-questions.");
    let one = vec![SubQuestion { question: "q".into(), assigned_worker: "W".into() }];
    assert_eq!(plan_outcome(&one), None);
}

#[test]
fn roles_map_to_worker_names() {
    let workers = vec![worker("Web Researcher", "web_researcher"), worker("Data Specialist", "data")];
    let plan = vec![assignment("q1", "web_researcher"), assignment("q2", "SPECIALIST")];
    let subs = assign_workers(&plan, &workers).ok().unwrap();
    assert_eq!(subs.len(), 2);
    assert_eq!(subs[0].assigned_worker, "Web Researcher");
    assert_eq!(subs[0].question, "q1");
    assert_eq!(subs[1].assigned_worker, "Data Specialist");
    for s in &subs {
        assert!(workers.iter().any(|w| w.name == s.assigned_worker));
    }
}

#[test]
fn unknown_role_is_rejected() {
    let workers = vec![worker("Web Researcher", "web_researcher")];
    let plan = vec![assignment("q1", "web_researcher"), assignment("q2", "astrologer")];
    match assign_workers(&plan, &workers) {
        Err(PlanError::WorkerRoleNotFound(w)) => assert_eq!(w, "astrologer"),
        Ok(_) => panic!("expected an error"),
    }
}

#[test]
fn json_array_is_cut_from_reply() {
    assert_eq!(extract_json_array_static("Plan: [1, [2]] then text").unwrap(), "[1, [2]]");
    assert_eq!(extract_json_array_static("  [unterminated  ").unwrap(), "[unterminated");
    assert_eq!(extract_json_array_static("no array"), Err(ExtractError::NoJsonArray));
    assert_eq!(plan_strategy("[{\"q\":1}]\n  Focus on sources. "), "Focus on sources.");
    assert_eq!(plan_strategy("  just text "), "just text");
}

#[test]
fn balanced_object_scan_honours_strings() {
    let t = "prose {\"a\": \"}\", \"b\": {\"c\": \"\\\"}\"}} trailing }";
    assert_eq!(extract_json_object(t).unwrap(), "{\"a\": \"}\", \"b\": {\"c\": \"\\\"}\"}}");
    assert_eq!(extract_json_object("no braces"), None);
    assert_eq!(extract_json_object("{ unclosed"), None);
    assert_eq!(extract_json_object("héllo {\"k\":\"é\"} x").unwrap(), "{\"k\":\"é\"}");
}

#[test]
fn approval_checks() {
    assert!(is_plan_approved("  approved, looks fine"));
    assert!(!is_plan_approved("Not APPROVED"));
    assert!(is_debate_approved("APPROVED: solid coverage"));
    assert!(is_debate_approved("the panel has approved it"));
    assert!(!is_debate_approved("needs work"));
    assert!(is_document_approved(" approved \n"));
    assert!(!is_document_approved("APPROVED with changes"));
}

#[test]
fn gap_injection_scenario() {
    assert_eq!(gap_worker_budget(4, 8), 3);
    assert_eq!(gap_worker_budget(7, 8), 1);
    assert_eq!(gap_worker_budget(8, 8), 0);
    assert!(!should_request_gaps(1, 2, 4, 8, false));
    assert!(should_request_gaps(2, 2, 4, 8, false));
    assert!(!should_request_gaps(2, 2, 4, 8, true));
    let mut d = WorkerDispatch::new(4);
    assert!(!d.on_worker_result());
    assert!(d.on_worker_result());
    assert_eq!(d.active_workers, 2);
    assert_eq!(d.on_gap_request(3, 8), 3);
    assert_eq!(d.active_workers, 5);
    assert_eq!(d.on_gap_request(3, 8), 0);
    assert_eq!(d.active_workers, 5);
    assert!(!d.on_worker_result());
    assert_eq!(d.on_follow_ups(6), 4);
    assert_eq!(d.active_workers, 8);
    assert!(!d.is_done());
}

#[test]
fn supervisor_decisions() {
    assert_eq!(default_midpoint(4), 2);
    assert_eq!(default_midpoint(5), 3);
    assert!(should_skip_review(1, 0, 0));
    assert!(!should_skip_review(2, 0, 0));
    assert!(is_no_gaps("  NO_GAPS \n"));
    assert!(is_no_gaps(""));
    assert!(!is_no_gaps("[]"));
    let proposed = vec![assignment("a", "w1"), assignment("b", "w2"), assignment("c", "w3"), assignment("d", "w4")];
    let taken = take_gap_questions(&proposed, 4, 8);
    assert_eq!(taken.len(), 3);
    assert_eq!(taken[2].question, "c");
    assert_eq!(take_gap_questions(&proposed, 7, 8).len(), 1);
}

#[test]
fn combination_text() {
    let results = vec![
        WorkerResult { question: "Q1".into(), answer: "A1".into(), worker_name: "W1".into() },
        WorkerResult { question: "Q2".into(), answer: "long".into(), worker_name: "W2".into() },
    ];
    let answers = vec!["A1".to_string(), "short".to_string()];
    assert_eq!(
        combine_results("topic", &results, &answers),
        "# Research Results for: topic\n\n## W1\n**Question:** Q1\n\nA1\n\n## W2\n**Question:** Q2\n\nshort\n\n"
    );
    assert!(needs_summary("héllo", 5));
    assert!(!needs_summary("hello", 5));
    assert_eq!(truncate_with_notice("abcdef", 3), "abc...\n\n[Note: Content truncated due to length]");
    assert_eq!(truncate_with_notice("ééé", 3), "é...\n\n[Note: Content truncated due to length]");
}

#[test]
fn stored_texts() {
    assert_eq!(progress_note(2, 4), "Workers completed: 2/4");
    assert_eq!(worker_error_answer("timeout"), "Error: timeout");
    let subs = vec![
        SubQuestion { question: "Q1".into(), assigned_worker: "W1".into() },
        SubQuestion { question: "Q2".into(), assigned_worker: "W2".into() },
    ];
    assert_eq!(
        plan_memory_content("topic", &subs, "go"),
        "Research Plan for: topic\n\nSub-questions:\n1. [W1] Q1\n2. [W2] Q2\n\nStrategy:\ngo"
    );
}
