use bob_bar::calendar::{civil_from_days, date_texts, global_context, CivilDate};
use bob_bar::json_path::{parse_json_path, PathError, PathStep};
use bob_bar::memory::{needs_vector_rebuild, upsert_action, UpsertAction};
use bob_bar::progress::Kind;
use bob_bar::research::{progress_line, ResearchProgress};
use bob_bar::research::summarize_arg;

#[test]
fn civil_dates() {
    assert_eq!(civil_from_days(0), Some(CivilDate { year: 1970, month: 1, day: 1 }));
    assert_eq!(civil_from_days(951782400 / 86400), Some(CivilDate { year: 2000, month: 2, day: 29 }));
}

#[test]
fn date_tool_texts() {
    let t = date_texts(1792198923).unwrap();
    assert_eq!(t.iso8601, "2026-10-17T01:02:03Z");
    assert_eq!(t.friendly, "October 17, 2026");
    let t0 = date_texts(1759536000).unwrap();
    assert_eq!(t0.friendly, "October 4, 2025");
}

#[test]
fn global_context_block() {
    assert_eq!(
        global_context(0, "linux", "x86_64").unwrap(),
        "=== Context ===\nCurrent date: January 1, 1970 (Thursday)\nSystem: linux (x86_64)\n==============="
    );
    assert!(global_context(1759536000, "macos", "aarch64").unwrap().contains("October 4, 2025 (Saturday)"));
}

fn view(steps: &[PathStep]) -> Vec<String> {
    steps
        .iter()
        .map(|s| match s {
            PathStep::Field(f) => format!("f:{}", f),
            PathStep::Index(i) => format!("i:{}", i),
        })
        .collect()
}

#[test]
fn response_paths() {
    let steps = parse_json_path("data.results[0].value").ok().unwrap();
    assert_eq!(view(&steps), vec!["f:data", "f:results", "i:0", "f:value"]);
    let steps = parse_json_path("[2].name").ok().unwrap();
    assert_eq!(view(&steps), vec!["i:2", "f:name"]);
    match parse_json_path("items[x]") {
        Err(PathError::InvalidIndex(p)) => assert_eq!(p, "items[x]"),
        Ok(_) => panic!("expected an error"),
    }
    assert!(parse_json_path("a]b[").is_err());
}

#[test]
fn upsert_decisions() {
    assert_eq!(upsert_action(true, &vec![7, 9]), UpsertAction::Update(7));
    assert_eq!(upsert_action(true, &vec![]), UpsertAction::Insert);
    assert_eq!(upsert_action(false, &vec![7]), UpsertAction::Insert);
}

#[test]
fn progress_arguments_are_shortened() {
    assert_eq!(summarize_arg("  a  b\n\tc ", 140), "a b c");
    assert_eq!(summarize_arg("abcdef", 4), "abc\u{2026}");
    assert_eq!(summarize_arg("", 4), "");
}

#[test]
fn progress_lines() {
    assert_eq!(progress_line(&ResearchProgress::PlanningIteration(1, 3)), ("Planning iteration 1/3".to_string(), Kind::Info));
    assert_eq!(progress_line(&ResearchProgress::WorkersStarted(4)), ("Dispatching 4 workers".to_string(), Kind::Worker));
    assert_eq!(
        progress_line(&ResearchProgress::WorkerStatus { worker: "Refiner".into(), status: "busy".into() }),
        ("Refiner: busy".to_string(), Kind::Refiner)
    );
    assert_eq!(
        progress_line(&ResearchProgress::WritingDocument(2, 3)),
        ("Writing document (iteration 2/3)".to_string(), Kind::Writer)
    );
    assert_eq!(progress_line(&ResearchProgress::Completed), ("Research complete".to_string(), Kind::Info));
}

#[test]
fn legacy_vector_table_is_detected() {
    assert!(needs_vector_rebuild("CREATE VIRTUAL TABLE vec_memories USING vec0(memory_id TEXT PRIMARY KEY, embedding float[768])"));
    assert!(!needs_vector_rebuild("CREATE VIRTUAL TABLE vec_memories USING vec0(memory_id INTEGER PRIMARY KEY, embedding float[768])"));
}
