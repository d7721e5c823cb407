use bob_bar::sources::{add_sources_section, extract_sources, render_sources_section, SourceLog};

#[test]
fn reference_section_scenario() {
    let doc = "Intro [Source: https://a.example] and (Source: https://a.example) plus https://b.example here.";
    let sources = extract_sources(doc);
    assert_eq!(sources, vec!["https://a.example".to_string(), "https://b.example".to_string()]);
    let out = add_sources_section(doc);
    assert!(out.starts_with(doc));
    assert!(out.contains("## References"));
    assert!(out.contains("### Web Sources"));
    assert!(out.contains("1. <https://a.example>\n"));
    assert!(out.contains("2. <https://b.example>\n"));
    assert!(!out.contains("### Additional Sources"));
    assert_eq!(out.matches("https://a.example>").count(), 1);
}

#[test]
fn named_sources_go_under_additional() {
    let doc = "Claim [Source: Annual Report 2023] and [Source:   https://x.org/page ]";
    let sources = extract_sources(doc);
    assert_eq!(sources, vec!["Annual Report 2023".to_string(), "https://x.org/page".to_string()]);
    let out = add_sources_section(doc);
    let expected = format!(
        "{}\n\n---\n\n## References\n\n### Web Sources\n\nThe following websites and online resources were consulted:\n\n1. <https://x.org/page>\n\n### Additional Sources\n\nOther sources referenced:\n\n2. Annual Report 2023\n",
        doc
    );
    assert_eq!(out, expected);
}

#[test]
fn bare_url_punctuation_is_trimmed() {
    let doc = "See https://c.example/path, and https://d.example.";
    let sources = extract_sources(doc);
    assert_eq!(sources, vec!["https://c.example/path".to_string(), "https://d.example".to_string()]);
}

#[test]
fn no_sources_leaves_text() {
    let doc = "Nothing cited here.";
    assert!(extract_sources(doc).is_empty());
    assert_eq!(add_sources_section(doc), doc);
}

#[test]
fn text_ending_in_blank_line_gets_no_extra_separator() {
    let out = render_sources_section("Body\n\n", &vec!["https://e.example".to_string()]);
    assert!(out.starts_with("Body\n\n---\n\n## References"));
}

#[test]
fn source_log_is_sorted_and_unique() {
    let mut log = SourceLog::new();
    log.note_current_source("https://z.example/api");
    log.note_current_source("https://a.example/api");
    log.note_current_source("https://z.example/api");
    assert_eq!(
        log.get_current_sources(),
        vec!["https://a.example/api".to_string(), "https://z.example/api".to_string()]
    );
    log.clear_current_sources();
    assert!(log.get_current_sources().is_empty());
}

#[test]
fn references_from_given_captures() {
    let text = "a [Source: https://a.example] b (Source: Report) c https://b.example. https://a.example";
    let s = |v: &[&str]| v.iter().map(|x| x.to_string()).collect::<Vec<String>>();
    let out = bob_bar::sources::sources_from_captures(
        text,
        &s(&[" https://a.example ", "  "]),
        &s(&["Report"]),
        &s(&["https://b.example.", "https://a.example"]),
    );
    assert_eq!(out, s(&["Report", "https://a.example", "https://b.example"]));
}
