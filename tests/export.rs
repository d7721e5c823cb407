use bob_bar::dynamic_context::MemoryNote;
use bob_bar::memory::{MemoryStats, MemoryType};
use bob_bar::memory_export::{memory_summary, tool_usage_section, FeedbackNote, ToolCallRecord};

fn call(agent: &str, name: &str) -> ToolCallRecord {
    ToolCallRecord { agent_name: agent.into(), tool_type: "http".into(), tool_name: name.into(), parameters: "(q=x)".into() }
}

#[test]
fn tool_usage_grouped_by_sorted_agent() {
    assert_eq!(tool_usage_section(&vec![]), "### Tool Usage\n\nNo tools were used during this research.\n");
    let calls = vec![call("worker_b", "news"), call("worker_a", "weather"), call("worker_b", "search")];
    assert_eq!(
        tool_usage_section(&calls),
        "### Tool Usage by Agent\n\n**worker_a**:\n  - `[http] weather` (q=x)\n\n**worker_b**:\n  - `[http] news` (q=x)\n  - `[http] search` (q=x)\n"
    );
}

#[test]
fn memory_summary_lists_everything() {
    let stats = MemoryStats::from_types(&vec![MemoryType::Discovery, MemoryType::Feedback]);
    let d = vec![MemoryNote { kind: "discovery".into(), content: "found it".into(), created_by: "w1".into() }];
    let f = vec![FeedbackNote { iteration: "2".into(), content: "stay focused".into() }];
    let out = memory_summary(&stats, "### Tool Usage\n\nNo tools were used during this research.\n", &d, &vec![], &vec![], &f);
    assert!(out.starts_with("\n\n---\n\n## Research Memory Summary\n\n**Total Memories**: 2 (Discoveries: 1, Insights: 0, Deadends: 0, Feedback: 1)\n\n"));
    assert!(out.contains("### Discoveries (1)\n\n- **[w1]**: found it\n\n### Insights (0)\n\n\n\n### Deadends (0)"));
    assert!(out.ends_with("### Supervisor Feedback (1)\n\n- **Iteration 2**: stay focused\n"));
}
