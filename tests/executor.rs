use bob_bar::tools::{
    builtin_description, fill_endpoint, get_tool_descriptions, interpolate_vars, is_builtin_tool,
    parameter_placement, params_summary, parse_bool_token, resolve_parameter_source, split_mcp_tool_name,
    substitute_path, tool_failure_record, tool_kind, tool_success_record, unavailable_tool_record,
    Binding, HttpTool, McpReadStep, McpReader, McpTool, NamedParameter, ParamDefault, ParamSource,
    ParameterDef, Placement, ServerTools, ToolKind, Tools, ToolsConfig,
};

fn bind(n: &str, v: &str) -> Binding {
    Binding { name: n.to_string(), value: v.to_string() }
}

fn weather_tool() -> HttpTool {
    HttpTool {
        name: "weather".into(),
        description: "Weather by city".into(),
        endpoint: "https://api/x/{city}".into(),
        method: "GET".into(),
        parameters: vec![NamedParameter {
            name: "city".into(),
            def: ParameterDef { param_type: "string".into(), description: "City".into(), required: true, default: None },
        }],
        path_params: vec!["city".into()],
        headers: vec![],
        response_format: "json".into(),
        response_path: None,
        expected_status: vec!["2xx".into()],
        acceptable_status: vec![],
        error_status: vec![],
    }
}

#[test]
fn single_http_tool_call_endpoint() {
    let t = weather_tool();
    let provided = "Paris".to_string();
    match resolve_parameter_source(&t.parameters[0].def, Some(&provided)) {
        ParamSource::Provided(v) => assert_eq!(v, "Paris"),
        other => panic!("unexpected {:?}", other),
    }
    assert_eq!(fill_endpoint(&t.endpoint, &t.path_params, &vec![bind("city", "Paris")]), "https://api/x/Paris");
    assert_eq!(parameter_placement(&t.method), Some(Placement::Query));
    assert_eq!(substitute_path("https://h/:id/x/{id}", "id", "7"), "https://h/7/x/7");
}

#[test]
fn defaults_override_model_values() {
    let def = ParameterDef { param_type: "string".into(), description: String::new(), required: false, default: Some(ParamDefault::Text("${API_KEY}".into())) };
    let given = "model-value".to_string();
    match resolve_parameter_source(&def, Some(&given)) {
        ParamSource::Placeholder(n) => assert_eq!(n, "API_KEY"),
        other => panic!("unexpected {:?}", other),
    }
    let fixed = ParameterDef { default: Some(ParamDefault::Text("en".into())), ..def.clone() };
    assert!(matches!(resolve_parameter_source(&fixed, Some(&given)), ParamSource::Default(ParamDefault::Text(ref s)) if s == "en"));
    let required = ParameterDef { required: true, default: None, ..def.clone() };
    assert!(matches!(resolve_parameter_source(&required, None), ParamSource::Missing));
    let optional = ParameterDef { required: false, default: None, ..def };
    assert!(matches!(resolve_parameter_source(&optional, None), ParamSource::Omitted));
}

#[test]
fn header_placeholders_are_filled() {
    let vars = vec![bind("TOKEN", "abc"), bind("TOKEN", "shadowed")];
    assert_eq!(interpolate_vars("Bearer ${TOKEN}", &vars), "Bearer abc");
    assert_eq!(interpolate_vars("${MISSING}-${TOKEN}", &vars), "${MISSING}-abc");
    assert_eq!(interpolate_vars("${unclosed", &vars), "${unclosed");
    assert_eq!(interpolate_vars("plain", &vars), "plain");
}

#[test]
fn boolean_tokens() {
    assert_eq!(parse_bool_token("YES"), Some(true));
    assert_eq!(parse_bool_token("0"), Some(false));
    assert_eq!(parse_bool_token("maybe"), None);
}

#[test]
fn catalog_lists_builtin_http_and_mcp() {
    let config = ToolsConfig {
        tools: Tools {
            http: vec![weather_tool()],
            mcp: vec![],
            builtin: vec!["current_date".into(), "not_a_tool".into(), "memory_stats".into()],
        },
    };
    assert!(is_builtin_tool(&config, "memory_stats"));
    assert!(!is_builtin_tool(&config, "weather"));
    let servers = vec![ServerTools { server: "fs".into(), tools: vec![McpTool { name: "read".into(), description: None }] }];
    let catalog = get_tool_descriptions(&config, &servers);
    let names: Vec<(String, String)> = catalog.iter().map(|d| (d.name.clone(), d.tool_type.clone())).collect();
    assert_eq!(
        names,
        vec![
            ("current_date".to_string(), "builtin".to_string()),
            ("memory_stats".to_string(), "builtin".to_string()),
            ("weather".to_string(), "http".to_string()),
            ("fs:read".to_string(), "mcp".to_string()),
        ]
    );
    assert_eq!(catalog[3].description, "MCP tool from fs");
    assert_eq!(catalog[2].parameters[0].name, "city");
    assert!(builtin_description("pdf_extract").unwrap().parameters[0].required);
    assert!(builtin_description("weather").is_none());
}

#[test]
fn tool_records() {
    assert_eq!(params_summary(&vec![]), "No parameters");
    assert_eq!(params_summary(&vec![bind("city", "Paris"), bind("units", "metric")]), "- **city**: Paris\n- **units**: metric");
    assert_eq!(
        tool_success_record(ToolKind::Http, "weather", "- **city**: Paris", "{\"t\":20}"),
        "Tool 'weather' was called with:\n- **city**: Paris\n\nAnd returned:\n{\"t\":20}"
    );
    assert_eq!(tool_failure_record(ToolKind::Builtin, "pdf_extract", "bad url"), "Built-in tool 'pdf_extract' failed with error: bad url");
    assert_eq!(
        unavailable_tool_record("x", "ftp"),
        "Tool 'x' of type 'ftp' is not available. Please continue without this tool."
    );
    assert_eq!(tool_kind("mcp"), Some(ToolKind::Mcp));
    assert_eq!(tool_kind("ftp"), None);
}

#[test]
fn mcp_names_and_reader() {
    assert_eq!(split_mcp_tool_name("fs:read"), Some(("fs".to_string(), "read".to_string())));
    assert_eq!(split_mcp_tool_name("read"), None);
    assert_eq!(split_mcp_tool_name("a:b:c"), None);
    let mut r = McpReader::new();
    assert_eq!(r.on_line(false, "", false), McpReadStep::ReadMore);
    assert_eq!(r.attempts, 0);
    assert_eq!(r.on_line(false, "debug output", false), McpReadStep::ReadMore);
    assert_eq!(r.on_line(false, "{\"jsonrpc\":\"2.0\"}", true), McpReadStep::Response);
    assert_eq!(r.on_line(true, "", false), McpReadStep::Disconnected);
    let mut r2 = McpReader::new();
    let mut last = McpReadStep::ReadMore;
    for _ in 0..11 {
        last = r2.on_line(false, "noise", false);
    }
    assert_eq!(last, McpReadStep::TooManyAttempts);
    let mut r3 = McpReader::new();
    for _ in 0..6 {
        assert_eq!(r3.on_line(false, "{broken", false), McpReadStep::ReadMore);
    }
    assert_eq!(r3.on_line(false, "{broken", false), McpReadStep::ParseFailed);
}

#[test]
fn comma_lists() {
    assert_eq!(
        bob_bar::tools::split_comma_list(" a, b ,,c"),
        vec!["a".to_string(), "b".to_string(), String::new(), "c".to_string()]
    );
    assert_eq!(bob_bar::tools::split_comma_list(""), vec![String::new()]);
}
