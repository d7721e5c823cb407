use bob_bar::config::{default_embedding_dimensions, default_max_tool_turns, Config};
use bob_bar::debate::{document_action, find_debate_agent, refinement_action, writer_prompt, Debate, DebateRole, DocumentAction, RefinementAction};
use bob_bar::dynamic_context::{memory_context_section, take_newest, DynamicContext, MemoryNote, NoteType};
use bob_bar::memory::{embedding_blob, EmbeddingError, MemoryStats, MemoryType};
use bob_bar::progress::{Kind, ProgressLog};
use bob_bar::research::AgentRole;
use bob_bar::urls::{extract_hostname, host_from_url};

#[test]
fn config_defaults() {
    let c = Config::default();
    assert_eq!(c.ollama.max_tool_turns, default_max_tool_turns());
    assert_eq!(c.ollama.embedding_dimensions, default_embedding_dimensions());
    assert_eq!(c.ollama.summarization_threshold, 5000);
    assert_eq!(c.research.max_worker_count, 10);
    assert!(!c.research.export_memories);
}

#[test]
fn progress_log_keeps_last_fifty() {
    let mut log = ProgressLog::new();
    for i in 0..60 {
        log.log_with(Kind::Http, &format!("line {}", i));
    }
    log.log("done");
    let recent = log.recent(3);
    assert_eq!(recent.len(), 3);
    assert_eq!(recent[0].text, "line 58");
    assert_eq!(recent[2].text, "done");
    assert_eq!(recent[2].kind, Kind::Info);
    assert_eq!(log.recent(100).len(), 50);
    log.clear();
    assert!(log.recent(5).is_empty());
}

#[test]
fn hosts() {
    assert_eq!(host_from_url("  https://user:pw@www.Example.com:8080/path?q=1 "), "Example.com");
    assert_eq!(extract_hostname("api.test.org/x"), "api.test.org");
    assert_eq!(host_from_url("http://h#frag"), "h");
}

#[test]
fn memory_types_and_stats() {
    for t in [MemoryType::Discovery, MemoryType::Insight, MemoryType::Deadend, MemoryType::QueryResult, MemoryType::Plan, MemoryType::Feedback, MemoryType::Context] {
        assert_eq!(MemoryType::from_str(t.as_str()), Some(t));
    }
    assert_eq!(MemoryType::from_str("FEEDBACK"), Some(MemoryType::Feedback));
    assert_eq!(MemoryType::from_str("note"), None);
    let s = MemoryStats::from_types(&vec![MemoryType::Discovery, MemoryType::Feedback, MemoryType::Discovery]);
    assert_eq!((s.total_count, s.discovery_count, s.feedback_count, s.plan_count), (3, 2, 1, 0));
    assert_eq!(s.summary_line(), "Total: 3 (Discoveries: 2, Insights: 0, Deadends: 0, Cached Queries: 0)");
    let empty = MemoryStats::from_types(&vec![]);
    assert_eq!(empty.total_count + empty.discovery_count + empty.feedback_count + empty.context_count, 0);
}

#[test]
fn embedding_blob_has_four_bytes_per_dimension() {
    let bits: Vec<u32> = [1.0f32, -2.5, 0.0].iter().map(|f| f.to_bits()).collect();
    let blob = embedding_blob(&bits, 3).unwrap();
    assert_eq!(blob.len() / 4, 3);
    let expected: Vec<u8> = [1.0f32, -2.5, 0.0].iter().flat_map(|f| f.to_le_bytes()).collect();
    assert_eq!(blob, expected);
    assert_eq!(embedding_blob(&bits, 768), Err(EmbeddingError::WrongDimension));
}

fn agent(role: &str) -> AgentRole {
    AgentRole { name: role.to_uppercase(), role: role.into(), description: String::new(), system_prompt: format!("You are the {}.", role), available_tools: vec![] }
}

#[test]
fn debate_runs_rounds_then_synthesizer() {
    let agents = vec![agent("advocate"), agent("skeptic"), agent("synthesizer")];
    assert_eq!(find_debate_agent(&agents, DebateRole::Skeptic), Some(1));
    let mut d = Debate::new("OUTPUT", 2);
    let mut order = Vec::new();
    while let Some(r) = d.next_speaker() {
        order.push(r);
        if r == DebateRole::Synthesizer {
            let p = d.prompt("SYS");
            assert!(p.starts_with("SYS\n\nResearch Output:\nOUTPUT\n\nComplete Debate Transcript:\n\n--- Round 1 ---\n**Advocate:**\nA1\n\n**Skeptic:**\nS1\n\n"));
            break;
        }
        let p = d.prompt("SYS");
        if d.turn == 0 {
            assert_eq!(p, "SYS\n\nResearch Output to Defend:\nOUTPUT");
        }
        if d.turn == 1 {
            assert_eq!(p, "SYS\n\nResearch Output:\nOUTPUT\n\nAdvocate's Defense:\nA1\n\nPresent your critique:");
        }
        let reply = match (r, d.turn / 2 + 1) {
            (DebateRole::Advocate, k) => format!("A{}", k),
            (_, k) => format!("S{}", k),
        };
        d.record_reply(&reply);
    }
    assert_eq!(order, vec![DebateRole::Advocate, DebateRole::Skeptic, DebateRole::Advocate, DebateRole::Skeptic, DebateRole::Synthesizer]);
}

#[test]
fn debate_approval_short_circuit() {
    assert_eq!(refinement_action("APPROVED: solid coverage"), RefinementAction::Approved);
    assert_eq!(refinement_action("More sources needed"), RefinementAction::Refine);
    assert_eq!(document_action(0, 3, "approved"), DocumentAction::Approved);
    assert_eq!(document_action(0, 3, "fix the intro"), DocumentAction::Revise);
    assert_eq!(document_action(2, 3, "fix the intro"), DocumentAction::Exhausted);
    assert_eq!(writer_prompt("W", "q", "r", None), "W\n\nOriginal Query: q\n\nResearch Findings:\nr\n\nCreate a comprehensive, professional document that fully answers the query.");
}

#[test]
fn test_new_context() {
    let ctx = DynamicContext::new("Test query".to_string(), "Test prompt".to_string());
    assert_eq!(ctx.get_query(), "Test query");
    assert_eq!(ctx.get_agent_prompt(), "Test prompt");
    assert_eq!(ctx.current_iteration(), 0);
}

#[test]
fn new_context_reads_memory_once_at_start() {
    let mut ctx = DynamicContext::new("q".to_string(), "p".to_string());
    assert!(ctx.take_memory_sync());
    assert!(!ctx.take_memory_sync());
    ctx.next_iteration();
    assert!(ctx.take_memory_sync());
    assert!(!ctx.take_memory_sync());
}

#[test]
fn test_iterations() {
    let mut ctx = DynamicContext::new("Test".to_string(), "Prompt".to_string());
    assert_eq!(ctx.current_iteration(), 0);
    ctx.next_iteration();
    assert_eq!(ctx.current_iteration(), 1);
    ctx.next_iteration();
    assert_eq!(ctx.current_iteration(), 2);
}

#[test]
fn test_working_notes() {
    let mut ctx = DynamicContext::new("Test".to_string(), "Prompt".to_string());
    ctx.add_note("First observation".to_string(), NoteType::Observation);
    ctx.add_note("Tool result".to_string(), NoteType::ToolResult);
    let notes = ctx.get_notes();
    assert_eq!(notes.len(), 2);
    assert_eq!(notes[0].content, "First observation");
    assert_eq!(notes[1].content, "Tool result");
}

#[test]
fn test_state() {
    let mut ctx = DynamicContext::new("Test".to_string(), "Prompt".to_string());
    ctx.set_state("key1".to_string(), "value1".to_string());
    ctx.set_state("key2".to_string(), "value2".to_string());
    assert_eq!(ctx.get_state("key1"), Some(&"value1".to_string()));
    assert_eq!(ctx.get_state("key2"), Some(&"value2".to_string()));
    assert_eq!(ctx.get_state("nonexistent"), None);
    ctx.set_state("key1".to_string(), "value3".to_string());
    assert_eq!(ctx.get_state("key1"), Some(&"value3".to_string()));
    assert_eq!(ctx.state.len(), 2);
}

#[test]
fn test_build_prompt_context() {
    let mut ctx = DynamicContext::new("What is the capital of France?".to_string(), "You are a helpful assistant".to_string());
    ctx.add_note("Paris is mentioned".to_string(), NoteType::Observation);
    ctx.set_state("sources_checked".to_string(), "wikipedia".to_string());
    let global = bob_bar::calendar::global_context(1792198923, "linux", "x86_64").unwrap();
    let context = ctx.build_prompt_context(&global, None);
    assert!(context.contains("Current date:"));
    assert!(context.contains("What is the capital of France?"));
    assert!(context.contains("Paris is mentioned"));
    assert!(context.contains("sources_checked"));
    assert!(context.contains("[Iteration 0, Observation] Paris is mentioned"));
}

fn note(kind: &str, content: &str, by: &str) -> MemoryNote {
    MemoryNote { kind: kind.into(), content: content.into(), created_by: by.into() }
}

#[test]
fn memory_section_omits_empty_parts() {
    assert_eq!(memory_context_section(&vec![], &vec![], &vec![], &vec![], &vec![]), None);
    let discoveries = vec![note("discovery", "d1", "w"), note("discovery", "d2", "w"), note("discovery", "d3", "w"), note("discovery", "d4", "w")];
    assert_eq!(take_newest(&discoveries, 3).iter().map(|m| m.content.clone()).collect::<Vec<_>>(), vec!["d4", "d3", "d2"]);
    let s = memory_context_section(&vec![], &vec![], &discoveries, &vec![], &vec![]).unwrap();
    assert_eq!(
        s,
        "=== Recent findings from other agents ===\n\u{2022} [discovery] d4 (by w)\n\u{2022} [discovery] d3 (by w)\n\u{2022} [discovery] d2 (by w)\n========================================="
    );
    assert!(!s.contains("Research Plan"));
    let with_plan = memory_context_section(&vec![note("plan", "P", "lead")], &vec![note("feedback", "F", "supervisor")], &vec![], &vec![], &vec![]).unwrap();
    assert!(with_plan.starts_with("=== Research Plan (by lead) ===\nP\n"));
    assert!(with_plan.contains("\n\n=== Leader Feedback & Adjustments ===\n\u{2022} F (by supervisor)\n"));
}
