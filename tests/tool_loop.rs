use bob_bar::lm_client::{
    array_sample, cap_message, is_critical_key, looks_like_tool_call, parse_attempts, resolve_tool_type,
    strip_code_fences, summary_choice, LoopStep, ParameterDescription, SummaryChoice, ToolDescription,
    ToolLoop,
};

fn tool(name: &str, kind: &str) -> ToolDescription {
    ToolDescription {
        name: name.to_string(),
        tool_type: kind.to_string(),
        description: String::new(),
        parameters: Vec::<ParameterDescription>::new(),
    }
}

#[test]
fn tool_call_detection() {
    assert!(looks_like_tool_call("{\"tool_type\":\"http\",\"tool_name\":\"weather\",\"parameters\":{}}"));
    assert!(looks_like_tool_call("  [ {} ]"));
    assert!(looks_like_tool_call("Calling tool_type x tool_name y {"));
    assert!(!looks_like_tool_call("The capital of France is Paris."));
}

#[test]
fn fences_are_removed() {
    assert_eq!(strip_code_fences("```json\n{\"a\":1}\n```"), "{\"a\":1}");
    assert_eq!(strip_code_fences("```\n[1]\n```"), "[1]");
    assert_eq!(strip_code_fences("no fence"), "no fence");
    let attempts = parse_attempts("Sure: {\"tool_type\":\"builtin\"} ok");
    assert_eq!(attempts.len(), 3);
    assert_eq!(attempts[1], "Sure: {\"tool_type\":\"builtin\"} ok");
    assert_eq!(attempts[2], "{\"tool_type\":\"builtin\"}");
}

#[test]
fn catalog_settles_mis_tagged_type() {
    let catalog = vec![tool("weather", "http"), tool("news_search", "http"), tool("current_date", "builtin")];
    assert_eq!(resolve_tool_type(&catalog, "weather", "builtin"), "http");
    assert_eq!(resolve_tool_type(&catalog, "news_search", "http"), "http");
    assert_eq!(resolve_tool_type(&catalog, "unknown", "mcp"), "mcp");
}

#[test]
fn iteration_cap_returns_gathered_results() {
    let mut l = ToolLoop::new("What is the weather?", 2);
    assert!(matches!(l.begin_iteration(), LoopStep::Query));
    assert_eq!(l.full_context(), "User question: What is the weather?");
    l.fold_results(&vec!["Tool 'weather' was called with:\nNo parameters\n\nAnd returned:\n{}".to_string()]);
    assert!(l.context.starts_with("Tool results from iteration 1:\n"));
    assert!(l.full_context().starts_with("Original user question: What is the weather?\n\nTool results"));
    assert!(matches!(l.begin_iteration(), LoopStep::Query));
    l.fold_results(&vec!["a".to_string(), "b".to_string()]);
    assert!(l.context.ends_with("\n\nTool results from iteration 2:\na\n\n---\n\nb"));
    match l.begin_iteration() {
        LoopStep::Finish(s) => {
            assert!(s.starts_with("Based on the research gathered:\n\n"));
            assert!(s.contains(&l.context));
            assert!(s.ends_with("Note: Reached maximum tool iteration limit. The above represents all gathered information."));
        }
        LoopStep::Query => panic!("cap not reached"),
    }
    assert_eq!(cap_message("", 5), "Maximum tool iteration limit (5) reached before gathering results.");
}

#[test]
fn summarization_decisions() {
    assert!(is_critical_key("PaperURL"));
    assert!(is_critical_key("published_date"));
    assert!(!is_critical_key("body"));
    assert_eq!(array_sample(10), None);
    let s = array_sample(12).unwrap();
    assert_eq!((s.head, s.omitted, s.tail_start), (5, 5, 10));
    assert_eq!(summary_choice(100, 100, None, true), SummaryChoice::Keep);
    assert_eq!(summary_choice(200_000, 50_000, Some(40_000), true), SummaryChoice::ReducedWithCritical);
    assert_eq!(summary_choice(200_000, 50_000, Some(90_000), true), SummaryChoice::Reduced);
    assert_eq!(summary_choice(200_000, 50_000, Some(100_001), true), SummaryChoice::Model);
    assert_eq!(summary_choice(200_000, 50_000, None, false), SummaryChoice::Model);
}

#[test]
fn condensing_keeps_critical_fields() {
    let keys: Vec<String> = ["url", "body", "DOI", "extra", "source_link"].iter().map(|s| s.to_string()).collect();
    let sizes = vec![10usize, 1000, 5, 10, 20];
    let keep = bob_bar::lm_client::select_fields(&keys, &sizes, 100);
    assert_eq!(keep, vec![true, true, true, false, true]);
    let all_small = bob_bar::lm_client::select_fields(&keys, &vec![1, 1, 1, 1, 1], 100);
    assert!(all_small.iter().all(|k| *k));
}
