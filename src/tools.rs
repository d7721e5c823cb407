use vstd::prelude::*;
use crate::lm_client::{ParameterDescription, ToolDescription};
use crate::text::{
    append_chars, append_str, chars_eq, chars_of, ends_with, ends_with_chars, lower_of, lowercase,
    occurs_at_exec, slice_chars, starts_with, starts_with_chars, string_of,
};

verus! {

/// The default of an HTTP tool parameter, as configured.
#[derive(Clone, Debug)]
pub enum ParamDefault {
    /// A string default; `${NAME}` stands for a secret or an environment variable.
    Text(String),
    /// Any other JSON value, in its JSON text.
    Json(String),
}

/// How an HTTP tool parameter is declared.
#[derive(Clone, Debug)]
pub struct ParameterDef {
    pub param_type: String,
    pub description: String,
    pub required: bool,
    pub default: Option<ParamDefault>,
}

/// A parameter name with its declaration.
#[derive(Clone, Debug)]
pub struct NamedParameter {
    pub name: String,
    pub def: ParameterDef,
}

/// A configured REST tool.
#[derive(Clone, Debug)]
pub struct HttpTool {
    pub name: String,
    pub description: String,
    pub endpoint: String,
    pub method: String,
    pub parameters: Vec<NamedParameter>,
    pub path_params: Vec<String>,
    pub headers: Vec<(String, String)>,
    pub response_format: String,
    pub response_path: Option<String>,
    pub expected_status: Vec<String>,
    pub acceptable_status: Vec<String>,
    pub error_status: Vec<String>,
}

/// A configured MCP server, run as a child process.
#[derive(Clone, Debug)]
pub struct McpServer {
    pub name: String,
    pub transport: String,
    pub command: String,
    pub args: Vec<String>,
    pub description: String,
    pub env: Vec<(String, String)>,
}

/// A tool that an MCP server reported.
#[derive(Clone, Debug)]
pub struct McpTool {
    pub name: String,
    pub description: Option<String>,
}

/// The tools of the tool configuration file.
#[derive(Clone, Debug)]
pub struct Tools {
    pub http: Vec<HttpTool>,
    pub mcp: Vec<McpServer>,
    pub builtin: Vec<String>,
}

/// The tool configuration file.
#[derive(Clone, Debug)]
pub struct ToolsConfig {
    pub tools: Tools,
}

/// Whether `name` is among the enabled built-in tools.
pub fn is_builtin_tool(config: &ToolsConfig, tool_name: &str) -> (r: bool)
    ensures
        r == exists|i: int|
            0 <= i < config.tools.builtin@.len() && config.tools.builtin@[i]@ == tool_name@,
{
    let key: String = tool_name.to_owned();
    let mut i: usize = 0;
    while i < config.tools.builtin.len()
        invariant
            i <= config.tools.builtin@.len(),
            key@ == tool_name@,
            forall|j: int| 0 <= j < i ==> config.tools.builtin@[j]@ != tool_name@,
        decreases config.tools.builtin.len() - i,
    {
        if config.tools.builtin[i] == key {
            return true;
        }
        i = i + 1;
    }
    false
}

/// Where a parameter's value comes from.
#[derive(Clone, Debug)]
pub enum ParamSource {
    /// The configured default, which wins over what the model gave.
    Default(ParamDefault),
    /// A `${NAME}` default: the value of the secret or variable `NAME`.
    Placeholder(String),
    /// The model's value, to be read by the declared type.
    Provided(String),
    /// Neither given nor defaulted, and not required: left out.
    Omitted,
    /// Required, yet neither given nor defaulted.
    Missing,
}

/// Whether a string default is a whole `${NAME}` placeholder.
pub open spec fn is_placeholder(s: Seq<char>) -> bool {
    starts_with(s, "${"@) && ends_with(s, "}"@) && s.len() >= 3
}

/// Decides where a parameter's value comes from: the default first, then
/// the model's value, else an error when the parameter is required.
pub fn resolve_parameter_source(def: &ParameterDef, provided: Option<&String>) -> (r: ParamSource)
    ensures
        def.default matches Some(ParamDefault::Text(s)) ==> (if is_placeholder(s@) {
            r matches ParamSource::Placeholder(n) && n@ == s@.subrange(2, s@.len() - 1)
        } else {
            r matches ParamSource::Default(ParamDefault::Text(t)) && t@ == s@
        }),
        def.default matches Some(ParamDefault::Json(j)) ==> r matches ParamSource::Default(
            ParamDefault::Json(k),
        ) && k@ == j@,
        def.default is None ==> match provided {
            Some(v) => r matches ParamSource::Provided(p) && p@ == v@,
            None => if def.required {
                r is Missing
            } else {
                r is Omitted
            },
        },
{
    match &def.default {
        Some(ParamDefault::Text(s)) => {
            let c = chars_of(s.as_str());
            let open = chars_of("${");
            let close = chars_of("}");
            if c.len() >= 3 && starts_with_chars(&c, &open) && ends_with_chars(&c, &close) {
                let n = c.len();
                ParamSource::Placeholder(string_of(&slice_chars(&c, 2, n - 1)))
            } else {
                ParamSource::Default(ParamDefault::Text(s.clone()))
            }
        },
        Some(ParamDefault::Json(j)) => ParamSource::Default(ParamDefault::Json(j.clone())),
        None => match provided {
            Some(v) => ParamSource::Provided(v.clone()),
            None => {
                if def.required {
                    ParamSource::Missing
                } else {
                    ParamSource::Omitted
                }
            },
        },
    }
}

/// The boolean that a token stands for, in any case: `true`, `1`, `yes`, `y`
/// or `false`, `0`, `no`, `n`.
pub open spec fn bool_token_spec(l: Seq<char>) -> Option<bool> {
    if l == "true"@ || l == "1"@ || l == "yes"@ || l == "y"@ {
        Some(true)
    } else if l == "false"@ || l == "0"@ || l == "no"@ || l == "n"@ {
        Some(false)
    } else {
        None
    }
}

/// Reads a boolean parameter value.
pub fn parse_bool_token(value: &str) -> (r: Option<bool>)
    ensures
        r == bool_token_spec(lower_of(value@)),
{
    let l = lowercase(value);
    let c = chars_of(l.as_str());
    if chars_eq(&c, &chars_of("true")) || chars_eq(&c, &chars_of("1")) || chars_eq(
        &c,
        &chars_of("yes"),
    ) || chars_eq(&c, &chars_of("y")) {
        Some(true)
    } else if chars_eq(&c, &chars_of("false")) || chars_eq(&c, &chars_of("0")) || chars_eq(
        &c,
        &chars_of("no"),
    ) || chars_eq(&c, &chars_of("n")) {
        Some(false)
    } else {
        None
    }
}

/// Every non-overlapping occurrence of `p` in `s`, from the left, replaced by `r`.
pub open spec fn replace_all(s: Seq<char>, p: Seq<char>, r: Seq<char>) -> Seq<char>
    recommends
        p.len() > 0,
    decreases s.len(),
{
    if p.len() == 0 || s.len() == 0 {
        s
    } else if starts_with(s, p) {
        r + replace_all(s.skip(p.len() as int), p, r)
    } else {
        seq![s[0]] + replace_all(s.skip(1), p, r)
    }
}

/// Replaces every occurrence of `p` in `s` by `r`.
pub fn replace_all_chars(s: &Vec<char>, p: &Vec<char>, r: &Vec<char>) -> (out: Vec<char>)
    requires
        p@.len() > 0,
    ensures
        out@ == replace_all(s@, p@, r@),
{
    let n = s.len();
    let mut out: Vec<char> = Vec::new();
    let mut i: usize = 0;
    proof {
        assert(s@.skip(0) =~= s@);
    }
    while i < n
        invariant
            n == s@.len(),
            i <= n,
            p@.len() > 0,
            out@ + replace_all(s@.skip(i as int), p@, r@) == replace_all(s@, p@, r@),
        decreases n - i,
    {
        let ghost rest = s@.skip(i as int);
        let hit = occurs_at_exec(s, p, i);
        proof {
            if hit {
                assert(rest.subrange(0, p@.len() as int) =~= s@.subrange(i as int, i + p@.len()));
                assert(rest.skip(p@.len() as int) =~= s@.skip(i + p@.len()));
            } else {
                if p@.len() <= rest.len() {
                    assert(rest.subrange(0, p@.len() as int) =~= s@.subrange(
                        i as int,
                        i + p@.len(),
                    ));
                }
                assert(rest.skip(1) =~= s@.skip(i + 1));
                assert(rest[0] == s@[i as int]);
            }
        }
        let ghost out0 = out@;
        if hit {
            append_chars(&mut out, r);
            proof {
                assert(out0 + replace_all(rest, p@, r@) =~= out@ + replace_all(
                    s@.skip(i + p@.len()),
                    p@,
                    r@,
                ));
            }
            i = i + p.len();
        } else {
            out.push(s[i]);
            proof {
                assert(out0 + replace_all(rest, p@, r@) =~= out@ + replace_all(
                    s@.skip(i + 1),
                    p@,
                    r@,
                ));
            }
            i = i + 1;
        }
    }
    proof {
        assert(s@.skip(n as int) =~= Seq::<char>::empty());
        assert(out@ + Seq::<char>::empty() =~= out@);
    }
    out
}

/// The endpoint with a path parameter filled in, in both its `{name}` and
/// `:name` forms.
pub open spec fn substitute_path_spec(endpoint: Seq<char>, name: Seq<char>, value: Seq<char>) -> Seq<
    char,
> {
    replace_all(replace_all(endpoint, "{"@ + name + "}"@, value), ":"@ + name, value)
}

/// Fills one path parameter into an endpoint template.
pub fn substitute_path(endpoint: &str, name: &str, value: &str) -> (r: String)
    ensures
        r@ == substitute_path_spec(endpoint@, name@, value@),
{
    let e = chars_of(endpoint);
    let v = chars_of(value);
    let mut braced: Vec<char> = Vec::new();
    append_str(&mut braced, "{");
    append_str(&mut braced, name);
    append_str(&mut braced, "}");
    let mut colon: Vec<char> = Vec::new();
    append_str(&mut colon, ":");
    append_str(&mut colon, name);
    proof {
        reveal_strlit("{");
        reveal_strlit(":");
        assert(braced@ =~= "{"@ + name@ + "}"@);
        assert(colon@ =~= ":"@ + name@);
    }
    let once = replace_all_chars(&e, &braced, &v);
    let twice = replace_all_chars(&once, &colon, &v);
    string_of(&twice)
}

/// A name with its value, for path parameters and for `${NAME}` lookups.
#[derive(Clone, Debug)]
pub struct Binding {
    pub name: String,
    pub value: String,
}

/// The value bound to `name`: the first binding for it.
pub open spec fn lookup_binding(bs: Seq<Binding>, name: Seq<char>) -> Option<Seq<char>>
    decreases bs.len(),
{
    if bs.len() == 0 {
        None
    } else if bs[0].name@ == name {
        Some(bs[0].value@)
    } else {
        lookup_binding(bs.drop_first(), name)
    }
}

/// Looks a name up among bindings.
pub fn find_binding(bs: &Vec<Binding>, name: &Vec<char>) -> (r: Option<String>)
    ensures
        r matches Some(v) ==> lookup_binding(bs@, name@) == Some(v@),
        r is None ==> lookup_binding(bs@, name@) is None,
{
    let mut i: usize = 0;
    proof {
        assert(bs@.skip(0) =~= bs@);
    }
    while i < bs.len()
        invariant
            i <= bs@.len(),
            lookup_binding(bs@, name@) == lookup_binding(bs@.skip(i as int), name@),
        decreases bs.len() - i,
    {
        proof {
            assert(bs@.skip(i as int).drop_first() =~= bs@.skip(i + 1));
            assert(bs@.skip(i as int)[0] == bs@[i as int]);
        }
        let c = chars_of(bs[i].name.as_str());
        if chars_eq(&c, name) {
            return Some(bs[i].value.clone());
        }
        i = i + 1;
    }
    None
}

/// The endpoint with every path parameter that has a value filled in, in
/// the order of `path_params`.
pub open spec fn fill_endpoint_spec(endpoint: Seq<char>, path_params: Seq<String>, values: Seq<Binding>) -> Seq<
    char,
>
    decreases path_params.len(),
{
    if path_params.len() == 0 {
        endpoint
    } else {
        let e = fill_endpoint_spec(endpoint, path_params.drop_last(), values);
        match lookup_binding(values, path_params.last()@) {
            Some(v) => substitute_path_spec(e, path_params.last()@, v),
            None => e,
        }
    }
}

/// Fills the path parameters of a tool into its endpoint template.
pub fn fill_endpoint(endpoint: &str, path_params: &Vec<String>, values: &Vec<Binding>) -> (r: String)
    ensures
        r@ == fill_endpoint_spec(endpoint@, path_params@, values@),
{
    let mut e: String = endpoint.to_owned();
    let mut i: usize = 0;
    proof {
        assert(path_params@.take(0) =~= Seq::<String>::empty());
    }
    while i < path_params.len()
        invariant
            i <= path_params@.len(),
            e@ == fill_endpoint_spec(endpoint@, path_params@.take(i as int), values@),
        decreases path_params.len() - i,
    {
        proof {
            assert(path_params@.take(i + 1).drop_last() =~= path_params@.take(i as int));
        }
        let name = chars_of(path_params[i].as_str());
        match find_binding(values, &name) {
            Some(v) => {
                e = substitute_path(e.as_str(), path_params[i].as_str(), v.as_str());
            },
            None => {},
        }
        i = i + 1;
    }
    proof {
        assert(path_params@.take(path_params@.len() as int) =~= path_params@);
    }
    e
}

/// The position of the first `c` in `s`, or the length of `s` if none.
pub open spec fn index_of_char(s: Seq<char>, c: char) -> nat
    decreases s.len(),
{
    if s.len() == 0 {
        0
    } else if s[0] == c {
        0
    } else {
        1 + index_of_char(s.drop_first(), c)
    }
}

/// A text with each `${NAME}` replaced by the value bound to `NAME`; a
/// placeholder with no binding stays as it is.
pub open spec fn interpolate(s: Seq<char>, vars: Seq<Binding>) -> Seq<char>
    decreases s.len(),
{
    if s.len() < 2 {
        s
    } else if s[0] == '$' && s[1] == '{' && index_of_char(s.skip(2), '}') < s.len() - 2 {
        let j = index_of_char(s.skip(2), '}') as int;
        let name = s.subrange(2, 2 + j);
        (match lookup_binding(vars, name) {
            Some(v) => v,
            None => s.subrange(0, 3 + j),
        }) + interpolate(s.skip(3 + j), vars)
    } else {
        seq![s[0]] + interpolate(s.skip(1), vars)
    }
}

proof fn lemma_index_of_char_skip(s: Seq<char>, c: char, a: int, q: int)
    requires
        0 <= a <= q <= s.len(),
        forall|k: int| a <= k < q ==> s[k] != c,
    ensures
        index_of_char(s.skip(a), c) == (q - a) + index_of_char(s.skip(q), c),
    decreases q - a,
{
    if a < q {
        assert(s.skip(a).drop_first() =~= s.skip(a + 1));
        assert(s.skip(a)[0] == s[a]);
        lemma_index_of_char_skip(s, c, a + 1, q);
    }
}

/// Replaces each `${NAME}` in a header value or default by its binding.
pub fn interpolate_vars(value: &str, vars: &Vec<Binding>) -> (r: String)
    ensures
        r@ == interpolate(value@, vars@),
{
    let s = chars_of(value);
    let n = s.len();
    let mut out: Vec<char> = Vec::new();
    let mut i: usize = 0;
    proof {
        assert(s@.skip(0) =~= s@);
    }
    while i < n
        invariant
            n == s@.len(),
            i <= n,
            out@ + interpolate(s@.skip(i as int), vars@) == interpolate(s@, vars@),
        decreases n - i,
    {
        let ghost rest = s@.skip(i as int);
        let ghost out0 = out@;
        if i + 1 < n && s[i] == '$' && s[i + 1] == '{' {
            let mut q: usize = i + 2;
            while q < n && s[q] != '}'
                invariant
                    n == s@.len(),
                    i + 2 <= q <= n,
                    forall|k: int| i + 2 <= k < q ==> s@[k] != '}',
                decreases n - q,
            {
                q = q + 1;
            }
            proof {
                lemma_index_of_char_skip(s@, '}', i + 2, q as int);
                assert(rest.skip(2) =~= s@.skip(i + 2));
                if q < n {
                    assert(s@.skip(q as int)[0] == '}');
                    assert(index_of_char(s@.skip(q as int), '}') == 0);
                } else {
                    assert(s@.skip(q as int).len() == 0);
                }
                assert(rest[0] == '$' && rest[1] == '{');
            }
            if q < n {
                let name = slice_chars(&s, i + 2, q);
                match find_binding(vars, &name) {
                    Some(v) => {
                        append_str(&mut out, v.as_str());
                    },
                    None => {
                        let lit = slice_chars(&s, i, q + 1);
                        append_chars(&mut out, &lit);
                    },
                }
                proof {
                    let j = (q - i - 2) as int;
                    assert(rest.subrange(2, 2 + j) =~= name@);
                    assert(rest.subrange(0, 3 + j) =~= s@.subrange(i as int, q + 1));
                    assert(rest.skip(3 + j) =~= s@.skip(q + 1));
                    assert(out0 + interpolate(rest, vars@) =~= out@ + interpolate(
                        s@.skip(q + 1),
                        vars@,
                    ));
                }
                i = q + 1;
            } else {
                out.push(s[i]);
                proof {
                    assert(rest.skip(1) =~= s@.skip(i + 1));
                    assert(out0 + interpolate(rest, vars@) =~= out@ + interpolate(
                        s@.skip(i + 1),
                        vars@,
                    ));
                }
                i = i + 1;
            }
        } else {
            out.push(s[i]);
            proof {
                assert(rest.skip(1) =~= s@.skip(i + 1));
                if rest.len() >= 2 {
                    assert(rest[0] == s@[i as int] && rest[1] == s@[i + 1]);
                }
                if rest.len() < 2 {
                    assert(rest =~= seq![s@[i as int]]);
                    assert(s@.skip(i + 1) =~= Seq::<char>::empty());
                }
                assert(out0 + interpolate(rest, vars@) =~= out@ + interpolate(
                    s@.skip(i + 1),
                    vars@,
                ));
            }
            i = i + 1;
        }
    }
    proof {
        assert(s@.skip(n as int) =~= Seq::<char>::empty());
        assert(out@ + Seq::<char>::empty() =~= out@);
    }
    string_of(&out)
}

/// The tool families a call can be dispatched to.
#[derive(PartialEq, Eq, Structural, Clone, Copy, Debug)]
pub enum ToolKind {
    Builtin,
    Http,
    Mcp,
}

/// The type tag of a tool family in the catalog.
pub open spec fn kind_tag(k: ToolKind) -> Seq<char> {
    match k {
        ToolKind::Builtin => "builtin"@,
        ToolKind::Http => "http"@,
        ToolKind::Mcp => "mcp"@,
    }
}

/// The tool family a type tag names, if any.
pub open spec fn kind_of_tag(t: Seq<char>) -> Option<ToolKind> {
    if t == "builtin"@ {
        Some(ToolKind::Builtin)
    } else if t == "http"@ {
        Some(ToolKind::Http)
    } else if t == "mcp"@ {
        Some(ToolKind::Mcp)
    } else {
        None
    }
}

/// Reads a catalog type tag.
pub fn tool_kind(tag: &str) -> (r: Option<ToolKind>)
    ensures
        r == kind_of_tag(tag@),
{
    let c = chars_of(tag);
    if chars_eq(&c, &chars_of("builtin")) {
        Some(ToolKind::Builtin)
    } else if chars_eq(&c, &chars_of("http")) {
        Some(ToolKind::Http)
    } else if chars_eq(&c, &chars_of("mcp")) {
        Some(ToolKind::Mcp)
    } else {
        None
    }
}

fn kind_tag_string(k: ToolKind) -> (r: String)
    ensures
        r@ == kind_tag(k),
{
    match k {
        ToolKind::Builtin => "builtin".to_owned(),
        ToolKind::Http => "http".to_owned(),
        ToolKind::Mcp => "mcp".to_owned(),
    }
}

/// The names of the built-in tools this library knows how to describe.
pub open spec fn is_known_builtin(n: Seq<char>) -> bool {
    n == "pdf_extract"@ || n == "memory_store"@ || n == "memory_search"@ || n
        == "memory_get_discoveries"@ || n == "memory_get_deadends"@ || n == "memory_get_insights"@
        || n == "memory_get_feedback"@ || n == "memory_get_plan"@ || n == "memory_stats"@ || n
        == "current_date"@
}

/// A parameter of the catalog as plain values: name, type, description,
/// and whether it is required.
pub open spec fn param_view(p: ParameterDescription) -> (Seq<char>, Seq<char>, Seq<char>, bool) {
    (p.name@, p.param_type@, p.description@, p.required)
}

/// A catalog entry as plain values: name, type tag, description, parameters.
pub open spec fn entry_view(d: ToolDescription) -> (
    Seq<char>,
    Seq<char>,
    Seq<char>,
    Seq<(Seq<char>, Seq<char>, Seq<char>, bool)>,
) {
    (
        d.name@,
        d.tool_type@,
        d.description@,
        d.parameters@.map_values(|p: ParameterDescription| param_view(p)),
    )
}

/// The description of a known built-in tool.
pub open spec fn builtin_text(n: Seq<char>) -> Seq<char> {
    if n == "pdf_extract"@ {
        "Extracts text content from a PDF file at a given URL. Returns the full text content of the PDF document."@
    } else if n == "memory_store"@ {
        "Store a new memory in shared memory for other agents to access. Types: discovery (key findings), insight (observations), deadend (failed approaches), context (general notes), feedback (agent feedback)."@
    } else if n == "memory_search"@ {
        "Search shared memory for similar content using semantic search. Returns top matching memories."@
    } else if n == "memory_get_discoveries"@ {
        "Get all discoveries stored by any agent. Useful to see what other agents have learned."@
    } else if n == "memory_get_deadends"@ {
        "Get all deadends/failed approaches from any agent. Helps avoid repeating failed attempts."@
    } else if n == "memory_get_insights"@ {
        "Get all insights recorded by any agent. Access important observations from other workers."@
    } else if n == "memory_get_feedback"@ {
        "Get feedback from the supervisor monitoring research progress. Check for guidance and warnings."@
    } else if n == "memory_get_plan"@ {
        "Get the research plan for this query. Shows the strategy and sub-questions assigned."@
    } else if n == "memory_stats"@ {
        "Get statistics about shared memory usage (counts of each memory type)."@
    } else if n == "current_date"@ {
        "Get the current date and time. Returns both ISO 8601 format (iso8601) and human-friendly format (friendly: 'October 04, 2025'). Use friendly format for search queries and API calls that expect readable dates. No parameters required."@
    } else {
        Seq::empty()
    }
}

/// The parameters of a known built-in tool.
pub open spec fn builtin_params(n: Seq<char>) -> Seq<(Seq<char>, Seq<char>, Seq<char>, bool)> {
    if n == "pdf_extract"@ {
        seq![("url"@, "string"@, "URL of the PDF file to extract text from. Must be a valid HTTP/HTTPS URL pointing to a PDF document."@, true)]
    } else if n == "memory_store"@ {
        seq![("type"@, "string"@, "Memory type: discovery, insight, deadend, context, or feedback"@, true), ("content"@, "string"@, "The content/text of the memory to store"@, true), ("agent"@, "string"@, "Your agent name/role"@, true), ("tags"@, "string"@, "Optional comma-separated tags for categorization"@, false)]
    } else if n == "memory_search"@ {
        seq![("query"@, "string"@, "Search query text"@, true), ("type"@, "string"@, "Optional: filter by memory type (discovery, insight, deadend, etc)"@, false), ("limit"@, "number"@, "Maximum number of results (default: 5)"@, false)]
    } else {
        Seq::empty()
    }
}

/// The catalog entry of a known built-in tool.
pub open spec fn builtin_entry(n: Seq<char>) -> (
    Seq<char>,
    Seq<char>,
    Seq<char>,
    Seq<(Seq<char>, Seq<char>, Seq<char>, bool)>,
) {
    (n, "builtin"@, builtin_text(n), builtin_params(n))
}

fn param_desc(name: &str, param_type: &str, description: &str, required: bool) -> (r:
    ParameterDescription)
    ensures
        r.name@ == name@,
        r.param_type@ == param_type@,
        r.description@ == description@,
        r.required == required,
{
    ParameterDescription {
        name: name.to_owned(),
        param_type: param_type.to_owned(),
        description: description.to_owned(),
        required,
    }
}

/// The catalog entry of a known built-in tool.
pub fn builtin_description(tool_name: &str) -> (r: Option<ToolDescription>)
    ensures
        r is Some <==> is_known_builtin(tool_name@),
        r matches Some(d) ==> entry_view(d) == builtin_entry(tool_name@),
{
    let c = chars_of(tool_name);
    let (description, parameters): (&str, Vec<ParameterDescription>) = if chars_eq(&c, &chars_of("pdf_extract")) {
        ("Extracts text content from a PDF file at a given URL. Returns the full text content of the PDF document.", vec![param_desc("url", "string", "URL of the PDF file to extract text from. Must be a valid HTTP/HTTPS URL pointing to a PDF document.", true)])
    } else if chars_eq(&c, &chars_of("memory_store")) {
        ("Store a new memory in shared memory for other agents to access. Types: discovery (key findings), insight (observations), deadend (failed approaches), context (general notes), feedback (agent feedback).", vec![param_desc("type", "string", "Memory type: discovery, insight, deadend, context, or feedback", true), param_desc("content", "string", "The content/text of the memory to store", true), param_desc("agent", "string", "Your agent name/role", true), param_desc("tags", "string", "Optional comma-separated tags for categorization", false)])
    } else if chars_eq(&c, &chars_of("memory_search")) {
        ("Search shared memory for similar content using semantic search. Returns top matching memories.", vec![param_desc("query", "string", "Search query text", true), param_desc("type", "string", "Optional: filter by memory type (discovery, insight, deadend, etc)", false), param_desc("limit", "number", "Maximum number of results (default: 5)", false)])
    } else if chars_eq(&c, &chars_of("memory_get_discoveries")) {
        ("Get all discoveries stored by any agent. Useful to see what other agents have learned.", vec![])
    } else if chars_eq(&c, &chars_of("memory_get_deadends")) {
        ("Get all deadends/failed approaches from any agent. Helps avoid repeating failed attempts.", vec![])
    } else if chars_eq(&c, &chars_of("memory_get_insights")) {
        ("Get all insights recorded by any agent. Access important observations from other workers.", vec![])
    } else if chars_eq(&c, &chars_of("memory_get_feedback")) {
        ("Get feedback from the supervisor monitoring research progress. Check for guidance and warnings.", vec![])
    } else if chars_eq(&c, &chars_of("memory_get_plan")) {
        ("Get the research plan for this query. Shows the strategy and sub-questions assigned.", vec![])
    } else if chars_eq(&c, &chars_of("memory_stats")) {
        ("Get statistics about shared memory usage (counts of each memory type).", vec![])
    } else if chars_eq(&c, &chars_of("current_date")) {
        ("Get the current date and time. Returns both ISO 8601 format (iso8601) and human-friendly format (friendly: 'October 04, 2025'). Use friendly format for search queries and API calls that expect readable dates. No parameters required.", vec![])
    } else {
        return None;
    };
    let d = ToolDescription {
        name: tool_name.to_owned(),
        tool_type: kind_tag_string(ToolKind::Builtin),
        description: description.to_owned(),
        parameters,
    };
    proof {
        assert(entry_view(d) =~= builtin_entry(tool_name@));
    }
    Some(d)
}

/// The tools an MCP server reported, under the server's name.
#[derive(Clone, Debug)]
pub struct ServerTools {
    pub server: String,
    pub tools: Vec<McpTool>,
}

/// The catalog name of an MCP tool: `server:tool`.
pub open spec fn mcp_catalog_name(server: Seq<char>, tool: Seq<char>) -> Seq<char> {
    server + ":"@ + tool
}

/// A catalog entry as plain values: name, type tag, description, parameters.
pub type EntryView = (Seq<char>, Seq<char>, Seq<char>, Seq<(Seq<char>, Seq<char>, Seq<char>, bool)>);

/// The catalog entry of a configured HTTP tool.
pub open spec fn http_entry(t: HttpTool) -> EntryView {
    (
        t.name@,
        "http"@,
        t.description@,
        t.parameters@.map_values(
            |p: NamedParameter| (p.name@, p.def.param_type@, p.def.description@, p.def.required),
        ),
    )
}

/// The catalog entry of a tool that an MCP server reported.
pub open spec fn mcp_entry(server: Seq<char>, t: McpTool) -> EntryView {
    (
        mcp_catalog_name(server, t.name@),
        "mcp"@,
        match t.description {
            Some(d) => d@,
            None => "MCP tool from "@ + server,
        },
        Seq::empty(),
    )
}

/// The catalog, in order: the known built-in tools, then the HTTP tools,
/// then each server's MCP tools.
pub open spec fn catalog_entries(
    builtin: Seq<String>,
    http: Seq<HttpTool>,
    mcp: Seq<ServerTools>,
) -> Seq<EntryView> {
    builtin.filter(|n: String| is_known_builtin(n@)).map_values(|n: String| builtin_entry(n@))
        + http.map_values(|t: HttpTool| http_entry(t)) + mcp_entries(mcp)
}

pub open spec fn mcp_entries(mcp: Seq<ServerTools>) -> Seq<EntryView>
    decreases mcp.len(),
{
    if mcp.len() == 0 {
        Seq::empty()
    } else {
        mcp_entries(mcp.drop_last()) + mcp.last().tools@.map_values(
            |t: McpTool| mcp_entry(mcp.last().server@, t),
        )
    }
}

pub open spec fn entries_of(ds: Seq<ToolDescription>) -> Seq<EntryView> {
    ds.map_values(|d: ToolDescription| entry_view(d))
}

fn http_description(t: &HttpTool) -> (r: ToolDescription)
    ensures
        entry_view(r) == http_entry(*t),
{
    let ghost f = |p: NamedParameter| (p.name@, p.def.param_type@, p.def.description@, p.def.required);
    let mut params: Vec<ParameterDescription> = Vec::new();
    let mut j: usize = 0;
    proof {
        assert(params@.map_values(|p: ParameterDescription| param_view(p)) =~= t.parameters@.take(
            0,
        ).map_values(f));
    }
    while j < t.parameters.len()
        invariant
            j <= t.parameters@.len(),
            f == (|p: NamedParameter| (p.name@, p.def.param_type@, p.def.description@, p.def.required)),
            params@.map_values(|p: ParameterDescription| param_view(p)) == t.parameters@.take(
                j as int,
            ).map_values(f),
        decreases t.parameters.len() - j,
    {
        let ghost prev = params@;
        let p = &t.parameters[j];
        let d = ParameterDescription {
            name: p.name.clone(),
            param_type: p.def.param_type.clone(),
            description: p.def.description.clone(),
            required: p.def.required,
        };
        params.push(d);
        proof {
            assert(params@ =~= prev.push(d));
            assert(t.parameters@.take(j + 1) =~= t.parameters@.take(j as int).push(t.parameters@[j as int]));
            assert(params@.map_values(|p: ParameterDescription| param_view(p)) =~= prev.map_values(
                |p: ParameterDescription| param_view(p),
            ).push(param_view(d)));
            assert(t.parameters@.take(j + 1).map_values(f) =~= t.parameters@.take(j as int).map_values(
                f,
            ).push(f(t.parameters@[j as int])));
        }
        j = j + 1;
    }
    proof {
        assert(t.parameters@.take(t.parameters@.len() as int) =~= t.parameters@);
    }
    let r = ToolDescription {
        name: t.name.clone(),
        tool_type: kind_tag_string(ToolKind::Http),
        description: t.description.clone(),
        parameters: params,
    };
    proof {
        assert(entry_view(r) =~= http_entry(*t));
    }
    r
}

fn mcp_description(server: &String, tool: &McpTool) -> (r: ToolDescription)
    ensures
        entry_view(r) == mcp_entry(server@, *tool),
{
    let mut name: Vec<char> = chars_of(server.as_str());
    append_str(&mut name, ":");
    append_str(&mut name, tool.name.as_str());
    let description = match &tool.description {
        Some(d) => d.clone(),
        None => {
            let mut d: Vec<char> = chars_of("MCP tool from ");
            append_str(&mut d, server.as_str());
            string_of(&d)
        },
    };
    let r = ToolDescription {
        name: string_of(&name),
        tool_type: kind_tag_string(ToolKind::Mcp),
        description,
        parameters: Vec::new(),
    };
    proof {
        assert(r.parameters@.map_values(|p: ParameterDescription| param_view(p)) =~= Seq::<
            (Seq<char>, Seq<char>, Seq<char>, bool),
        >::empty());
        assert(entry_view(r) =~= mcp_entry(server@, *tool));
    }
    r
}

/// Builds the catalog of tools that the model is shown and that settles
/// each call's tool type: every entry's name, type, description and
/// parameters.
pub fn get_tool_descriptions(config: &ToolsConfig, mcp_tools: &Vec<ServerTools>) -> (r: Vec<
    ToolDescription,
>)
    ensures
        entries_of(r@) == catalog_entries(config.tools.builtin@, config.tools.http@, mcp_tools@),
{
    let mut out: Vec<ToolDescription> = Vec::new();
    let builtin = &config.tools.builtin;
    let ghost pb = |n: String| is_known_builtin(n@);
    let ghost fb = |n: String| builtin_entry(n@);
    let mut i: usize = 0;
    proof {
        assert(builtin@.take(0) =~= Seq::<String>::empty());
        assert(entries_of(out@) =~= builtin@.take(0).filter(pb).map_values(fb));
    }
    while i < builtin.len()
        invariant
            i <= builtin@.len(),
            pb == (|n: String| is_known_builtin(n@)),
            fb == (|n: String| builtin_entry(n@)),
            entries_of(out@) == builtin@.take(i as int).filter(pb).map_values(fb),
        decreases builtin.len() - i,
    {
        let ghost prev = out@;
        proof {
            assert(builtin@.take(i + 1) =~= builtin@.take(i as int).push(builtin@[i as int]));
            builtin@.take(i as int).lemma_filter_push(builtin@[i as int], pb);
        }
        match builtin_description(builtin[i].as_str()) {
            Some(d) => {
                out.push(d);
                proof {
                    assert(entries_of(out@) =~= entries_of(prev).push(fb(builtin@[i as int])));
                    assert(builtin@.take(i as int).filter(pb).push(builtin@[i as int]).map_values(fb)
                        =~= builtin@.take(i as int).filter(pb).map_values(fb).push(
                        fb(builtin@[i as int]),
                    ));
                }
            },
            None => {},
        }
        i = i + 1;
    }
    proof {
        assert(builtin@.take(builtin@.len() as int) =~= builtin@);
    }
    let ghost after_builtin = entries_of(out@);
    let http = &config.tools.http;
    let ghost fh = |t: HttpTool| http_entry(t);
    let mut k: usize = 0;
    proof {
        assert(http@.take(0).map_values(fh) =~= Seq::<EntryView>::empty());
        assert(entries_of(out@) =~= after_builtin + http@.take(0).map_values(fh));
    }
    while k < http.len()
        invariant
            k <= http@.len(),
            fh == (|t: HttpTool| http_entry(t)),
            entries_of(out@) == after_builtin + http@.take(k as int).map_values(fh),
        decreases http.len() - k,
    {
        let ghost prev = out@;
        let d = http_description(&http[k]);
        out.push(d);
        proof {
            assert(http@.take(k + 1).map_values(fh) =~= http@.take(k as int).map_values(fh).push(
                fh(http@[k as int]),
            ));
            assert(entries_of(out@) =~= entries_of(prev).push(fh(http@[k as int])));
        }
        k = k + 1;
    }
    proof {
        assert(http@.take(http@.len() as int) =~= http@);
    }
    let ghost after_http = entries_of(out@);
    let mut s: usize = 0;
    proof {
        assert(mcp_tools@.take(0) =~= Seq::<ServerTools>::empty());
        assert(entries_of(out@) =~= after_http + mcp_entries(mcp_tools@.take(0)));
    }
    while s < mcp_tools.len()
        invariant
            s <= mcp_tools@.len(),
            entries_of(out@) == after_http + mcp_entries(mcp_tools@.take(s as int)),
        decreases mcp_tools.len() - s,
    {
        let server = &mcp_tools[s];
        let ghost start = out@;
        let ghost fm = |t: McpTool| mcp_entry(server.server@, t);
        let mut m: usize = 0;
        proof {
            assert(entries_of(out@) =~= entries_of(start) + server.tools@.take(0).map_values(fm));
        }
        while m < server.tools.len()
            invariant
                m <= server.tools@.len(),
                fm == (|t: McpTool| mcp_entry(server.server@, t)),
                entries_of(out@) == entries_of(start) + server.tools@.take(m as int).map_values(fm),
            decreases server.tools.len() - m,
        {
            let ghost prev = out@;
            let d = mcp_description(&server.server, &server.tools[m]);
            out.push(d);
            proof {
                assert(server.tools@.take(m + 1).map_values(fm) =~= server.tools@.take(
                    m as int,
                ).map_values(fm).push(fm(server.tools@[m as int])));
                assert(entries_of(out@) =~= entries_of(prev).push(fm(server.tools@[m as int])));
            }
            m = m + 1;
        }
        proof {
            assert(server.tools@.take(server.tools@.len() as int) =~= server.tools@);
            assert(mcp_tools@.take(s + 1).drop_last() =~= mcp_tools@.take(s as int));
            assert(mcp_tools@.take(s + 1).last() == mcp_tools@[s as int]);
        }
        s = s + 1;
    }
    proof {
        assert(mcp_tools@.take(mcp_tools@.len() as int) =~= mcp_tools@);
    }
    out
}

/// One parameter line of a tool record.
pub open spec fn param_line(b: Binding) -> Seq<char> {
    "- **"@ + b.name@ + "**: "@ + b.value@
}

pub open spec fn param_lines(bs: Seq<Binding>) -> Seq<char>
    decreases bs.len(),
{
    if bs.len() == 0 {
        Seq::empty()
    } else if bs.len() == 1 {
        param_line(bs[0])
    } else {
        param_lines(bs.drop_last()) + "\n"@ + param_line(bs.last())
    }
}

/// How the parameters of a call are shown in its record.
pub open spec fn params_summary_spec(bs: Seq<Binding>) -> Seq<char> {
    if bs.len() == 0 {
        "No parameters"@
    } else {
        param_lines(bs)
    }
}

/// Shows the parameters of a call, one `- **name**: value` line each.
pub fn params_summary(params: &Vec<Binding>) -> (r: String)
    ensures
        r@ == params_summary_spec(params@),
{
    if params.len() == 0 {
        return "No parameters".to_owned();
    }
    let mut out: Vec<char> = Vec::new();
    let mut i: usize = 0;
    proof {
        assert(params@.take(0) =~= Seq::<Binding>::empty());
    }
    while i < params.len()
        invariant
            i <= params@.len(),
            out@ == param_lines(params@.take(i as int)),
        decreases params.len() - i,
    {
        let ghost prev = out@;
        if i > 0 {
            append_str(&mut out, "\n");
        }
        append_str(&mut out, "- **");
        append_str(&mut out, params[i].name.as_str());
        append_str(&mut out, "**: ");
        append_str(&mut out, params[i].value.as_str());
        proof {
            let t = params@.take(i + 1);
            assert(t.drop_last() =~= params@.take(i as int));
            assert(t.last() == params@[i as int]);
            if i == 0 {
                assert(t.len() == 1 && t[0] == params@[0]);
                assert(out@ =~= param_line(params@[0]));
            } else {
                assert(out@ =~= prev + "\n"@ + param_line(params@[i as int]));
            }
        }
        i = i + 1;
    }
    proof {
        assert(params@.take(params@.len() as int) =~= params@);
    }
    string_of(&out)
}

/// How a tool family is named at the start of a record.
pub open spec fn record_label(k: ToolKind) -> Seq<char> {
    match k {
        ToolKind::Builtin => "Built-in tool '"@,
        ToolKind::Http => "Tool '"@,
        ToolKind::Mcp => "MCP tool '"@,
    }
}

fn record_label_exec(k: ToolKind) -> (r: &'static str)
    ensures
        r@ == record_label(k),
{
    match k {
        ToolKind::Builtin => "Built-in tool '",
        ToolKind::Http => "Tool '",
        ToolKind::Mcp => "MCP tool '",
    }
}

/// The record of a tool call that returned a result.
pub fn tool_success_record(kind: ToolKind, tool_name: &str, params: &str, result: &str) -> (r:
    String)
    ensures
        r@ == record_label(kind) + tool_name@ + "' was called with:\n"@ + params@
            + "\n\nAnd returned:\n"@ + result@,
{
    let mut out: Vec<char> = Vec::new();
    append_str(&mut out, record_label_exec(kind));
    append_str(&mut out, tool_name);
    append_str(&mut out, "' was called with:\n");
    append_str(&mut out, params);
    append_str(&mut out, "\n\nAnd returned:\n");
    append_str(&mut out, result);
    string_of(&out)
}

/// The record of a tool call that failed: the failure is folded into the
/// conversation so the model can carry on without it.
pub fn tool_failure_record(kind: ToolKind, tool_name: &str, error: &str) -> (r: String)
    ensures
        r@ == record_label(kind) + tool_name@ + "' failed with error: "@ + error@,
{
    let mut out: Vec<char> = Vec::new();
    append_str(&mut out, record_label_exec(kind));
    append_str(&mut out, tool_name);
    append_str(&mut out, "' failed with error: ");
    append_str(&mut out, error);
    string_of(&out)
}

/// The record of a call to a tool of no known family.
pub fn unavailable_tool_record(tool_name: &str, tool_type: &str) -> (r: String)
    ensures
        r@ == "Tool '"@ + tool_name@ + "' of type '"@ + tool_type@
            + "' is not available. Please continue without this tool."@,
{
    let mut out: Vec<char> = Vec::new();
    append_str(&mut out, "Tool '");
    append_str(&mut out, tool_name);
    append_str(&mut out, "' of type '");
    append_str(&mut out, tool_type);
    append_str(&mut out, "' is not available. Please continue without this tool.");
    string_of(&out)
}

pub open spec fn colon_count(s: Seq<char>) -> nat
    decreases s.len(),
{
    if s.len() == 0 {
        0
    } else {
        colon_count(s.drop_last()) + if s.last() == ':' {
            1nat
        } else {
            0nat
        }
    }
}

/// Splits an MCP catalog name `server:tool`; a name without exactly one
/// colon names no server.
pub fn split_mcp_tool_name(tool_name: &str) -> (r: Option<(String, String)>)
    ensures
        r is Some <==> colon_count(tool_name@) == 1,
        r matches Some((a, b)) ==> tool_name@ == a@ + ":"@ + b@ && colon_count(a@) == 0,
{
    let c = chars_of(tool_name);
    let n = c.len();
    let mut count: usize = 0;
    let mut pos: usize = 0;
    let mut i: usize = 0;
    proof {
        assert(c@.take(0) =~= Seq::<char>::empty());
    }
    while i < n
        invariant
            n == c@.len(),
            i <= n,
            count == colon_count(c@.take(i as int)),
            count <= i,
            count >= 1 ==> pos < i && c@[pos as int] == ':' && colon_count(c@.take(pos as int))
                == 0,
        decreases n - i,
    {
        proof {
            assert(c@.take(i + 1).drop_last() =~= c@.take(i as int));
        }
        if c[i] == ':' {
            if count == 0 {
                pos = i;
            }
            count = count + 1;
        }
        i = i + 1;
    }
    proof {
        assert(c@.take(n as int) =~= c@);
    }
    if count != 1 {
        return None;
    }
    let a = slice_chars(&c, 0, pos);
    let b = slice_chars(&c, pos + 1, n);
    proof {
        reveal_strlit(":");
        assert(c@ =~= a@ + ":"@ + b@);
        assert(c@.take(pos as int) =~= a@);
    }
    Some((string_of(&a), string_of(&b)))
}

/// What to do with a line read from an MCP server.
#[derive(PartialEq, Eq, Structural, Clone, Copy, Debug)]
pub enum McpReadStep {
    /// The line is the response.
    Response,
    /// Skip the line and read another.
    ReadMore,
    /// The server closed its output.
    Disconnected,
    /// Lines that look like JSON kept failing to parse.
    ParseFailed,
    /// Too many lines went by without a response.
    TooManyAttempts,
}

/// Reading one response from an MCP server: it tolerates blank lines and
/// lines of other output, within a bounded number of attempts.
pub struct McpReader {
    pub attempts: usize,
}

pub const MCP_PARSE_RETRIES: usize = 5;

pub const MCP_MAX_ATTEMPTS: usize = 10;

/// What a line does to the reader: `eof` when nothing could be read,
/// `blank` for a line of whitespace, `parses` when it is JSON, `json_like`
/// when it begins with `{` or `[`.
pub open spec fn mcp_step_spec(
    attempts: nat,
    eof: bool,
    blank: bool,
    parses: bool,
    json_like: bool,
) -> (McpReadStep, nat) {
    if eof {
        (McpReadStep::Disconnected, attempts)
    } else if blank {
        (McpReadStep::ReadMore, attempts)
    } else if parses {
        (McpReadStep::Response, attempts)
    } else if json_like && attempts > MCP_PARSE_RETRIES {
        (McpReadStep::ParseFailed, attempts)
    } else if attempts + 1 > MCP_MAX_ATTEMPTS {
        (McpReadStep::TooManyAttempts, attempts + 1)
    } else {
        (McpReadStep::ReadMore, attempts + 1)
    }
}

impl McpReader {
    pub fn new() -> (r: McpReader)
        ensures
            r.attempts == 0,
    {
        McpReader { attempts: 0 }
    }

    /// Takes one line (already trimmed) and says what comes next.
    pub fn on_line(&mut self, eof: bool, line: &str, parses: bool) -> (r: McpReadStep)
        requires
            old(self).attempts <= MCP_MAX_ATTEMPTS,
        ensures
            (r, final(self).attempts as nat) == mcp_step_spec(
                old(self).attempts as nat,
                eof,
                line@.len() == 0,
                parses,
                crate::text::starts_with(line@, "{"@) || crate::text::starts_with(line@, "["@),
            ),
    {
        if eof {
            return McpReadStep::Disconnected;
        }
        if line.is_empty() {
            return McpReadStep::ReadMore;
        }
        if parses {
            return McpReadStep::Response;
        }
        let c = chars_of(line);
        let json_like = starts_with_chars(&c, &chars_of("{")) || starts_with_chars(
            &c,
            &chars_of("["),
        );
        if json_like && self.attempts > MCP_PARSE_RETRIES {
            return McpReadStep::ParseFailed;
        }
        self.attempts = self.attempts + 1;
        if self.attempts > MCP_MAX_ATTEMPTS {
            McpReadStep::TooManyAttempts
        } else {
            McpReadStep::ReadMore
        }
    }
}

/// Reading a response always ends: every line that is not blank counts as
/// an attempt, and past the bound the reader gives up.
pub proof fn lemma_mcp_reader_bounded(attempts: nat, eof: bool, parses: bool, json_like: bool)
    requires
        attempts <= MCP_MAX_ATTEMPTS,
    ensures
        ({
            let (step, next) = mcp_step_spec(attempts, eof, false, parses, json_like);
            step == McpReadStep::ReadMore ==> next == attempts + 1 && next <= MCP_MAX_ATTEMPTS
        }),
{
}

/// Where the parameters of a call go, by HTTP method.
#[derive(PartialEq, Eq, Structural, Clone, Copy, Debug)]
pub enum Placement {
    /// As the query string.
    Query,
    /// As a JSON body.
    JsonBody,
}

/// The placement of parameters for an HTTP method: the query string for
/// `GET` and `DELETE`, a JSON body for `POST`, `PUT` and `PATCH`; no other
/// method is supported.
pub fn parameter_placement(method: &str) -> (r: Option<Placement>)
    ensures
        r == (if method@ == "GET"@ || method@ == "DELETE"@ {
            Some(Placement::Query)
        } else if method@ == "POST"@ || method@ == "PUT"@ || method@ == "PATCH"@ {
            Some(Placement::JsonBody)
        } else {
            None
        }),
{
    let m = chars_of(method);
    if chars_eq(&m, &chars_of("GET")) || chars_eq(&m, &chars_of("DELETE")) {
        Some(Placement::Query)
    } else if chars_eq(&m, &chars_of("POST")) || chars_eq(&m, &chars_of("PUT")) || chars_eq(
        &m,
        &chars_of("PATCH"),
    ) {
        Some(Placement::JsonBody)
    } else {
        None
    }
}

/// The items of a comma-separated value, each trimmed.
pub open spec fn comma_items(s: Seq<char>) -> Seq<Seq<char>> {
    crate::json_path::split_parts(s, ',').map_values(|p: Seq<char>| crate::text::trim(p))
}

/// Reads an array parameter given as comma-separated values.
pub fn split_comma_list(value: &str) -> (r: Vec<String>)
    ensures
        crate::sources::views(r@) == comma_items(value@),
{
    let parts = crate::json_path::split_on(&chars_of(value), ',');
    let ghost pv = parts@.map_values(|v: Vec<char>| v@);
    let mut r: Vec<String> = Vec::new();
    let mut i: usize = 0;
    while i < parts.len()
        invariant
            i <= parts@.len(),
            pv == parts@.map_values(|v: Vec<char>| v@),
            pv == crate::json_path::split_parts(value@, ','),
            crate::sources::views(r@) == pv.take(i as int).map_values(|p: Seq<char>| crate::text::trim(p)),
        decreases parts.len() - i,
    {
        let ghost prev = r@;
        r.push(string_of(&crate::text::trim_chars(&parts[i])));
        proof {
            assert(r@ =~= prev.push(r@.last()));
            assert(pv.take(i + 1) =~= pv.take(i as int).push(parts@[i as int]@));
            assert(crate::sources::views(r@) =~= crate::sources::views(prev).push(r@.last()@));
            assert(pv.take(i + 1).map_values(|p: Seq<char>| crate::text::trim(p)) =~= pv.take(
                i as int,
            ).map_values(|p: Seq<char>| crate::text::trim(p)).push(crate::text::trim(parts@[i as int]@)));
        }
        i = i + 1;
    }
    proof {
        assert(pv.take(pv.len() as int) =~= pv);
    }
    r
}

} // verus!
