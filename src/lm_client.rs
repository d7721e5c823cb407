use vstd::prelude::*;
use crate::status::{decimal_chars, decimal_of};
use crate::text::{
    append_chars, append_str, chars_of, contains, contains_chars, find_first, find_last,
    is_first_occurrence, is_last_occurrence, lower_of, lowercase, slice_chars, starts_with,
    starts_with_chars, string_of, trim, trim_chars, occurs_at, lemma_contains_self,
    lemma_contains_within,
};
use crate::json_scan::{extract_json_object, is_first_object};

verus! {

/// Whether a model reply looks like a request for tools: it names both tool
/// fields, or begins, once trimmed, with `{` or `[`.
pub open spec fn looks_like_tool_call_spec(t: Seq<char>) -> bool {
    (contains(t, "\"tool_type\""@) && contains(t, "\"tool_name\""@)) || (contains(
        t,
        "tool_type"@,
    ) && contains(t, "tool_name"@) && contains(t, "{"@)) || starts_with(trim(t), "{"@)
        || starts_with(trim(t), "["@)
}

/// Whether a model reply should be read as a request for tools.
pub fn looks_like_tool_call(response: &str) -> (r: bool)
    ensures
        r == looks_like_tool_call_spec(response@),
{
    let t = chars_of(response);
    let tr = trim_chars(&t);
    let a = contains_chars(&t, &chars_of("\"tool_type\""));
    let b = contains_chars(&t, &chars_of("\"tool_name\""));
    let c = contains_chars(&t, &chars_of("tool_type"));
    let d = contains_chars(&t, &chars_of("tool_name"));
    let e = contains_chars(&t, &chars_of("{"));
    let f = starts_with_chars(&tr, &chars_of("{"));
    let g = starts_with_chars(&tr, &chars_of("["));
    (a && b) || (c && d && e) || f || g
}

/// The reply without its code fence: after the first "```json" (or a
/// leading "```"), up to the last "```", trimmed. A reply with no fence is
/// left as it is.
pub open spec fn strip_fences_spec(t: Seq<char>) -> Seq<char> {
    if !contains(t, "```"@) {
        t
    } else {
        let body = if contains(t, "```json"@) {
            let p = choose|p: int| is_first_occurrence(t, "```json"@, p);
            t.subrange(p + 7, t.len() as int)
        } else if starts_with(t, "```"@) {
            t.subrange(3, t.len() as int)
        } else {
            t
        };
        if contains(body, "```"@) {
            let q = choose|q: int| is_last_occurrence(body, "```"@, q);
            trim(body.subrange(0, q))
        } else {
            trim(body)
        }
    }
}

proof fn lemma_first_is_chosen(t: Seq<char>, p: Seq<char>, i: int)
    requires
        is_first_occurrence(t, p, i),
    ensures
        (choose|x: int| is_first_occurrence(t, p, x)) == i,
{
    let c = choose|x: int| is_first_occurrence(t, p, x);
    assert(is_first_occurrence(t, p, c));
}

proof fn lemma_last_is_chosen(t: Seq<char>, p: Seq<char>, i: int)
    requires
        is_last_occurrence(t, p, i),
    ensures
        (choose|x: int| is_last_occurrence(t, p, x)) == i,
{
    let c = choose|x: int| is_last_occurrence(t, p, x);
    assert(is_last_occurrence(t, p, c));
}

/// Removes a markdown code fence around a reply.
pub fn strip_code_fences(response: &str) -> (r: String)
    ensures
        r@ == strip_fences_spec(response@),
{
    let t = chars_of(response);
    let fence = chars_of("```");
    let fence_json = chars_of("```json");
    proof {
        reveal_strlit("```json");
        reveal_strlit("```");
        assert(fence_json@.len() == 7);
        assert(fence@.len() == 3);
    }
    if !contains_chars(&t, &fence) {
        return string_of(&t);
    }
    let n = t.len();
    let body = match find_first(&t, &fence_json) {
        Some(p) => {
            proof {
                lemma_first_is_chosen(t@, "```json"@, p as int);
            }
            slice_chars(&t, p + 7, n)
        },
        None => {
            if starts_with_chars(&t, &fence) {
                slice_chars(&t, 3, n)
            } else {
                proof {
                    assert(t@.subrange(0, n as int) =~= t@);
                }
                slice_chars(&t, 0, n)
            }
        },
    };
    match find_last(&body, &fence) {
        Some(q) => {
            proof {
                lemma_last_is_chosen(body@, "```"@, q as int);
            }
            let inner = slice_chars(&body, 0, q);
            string_of(&trim_chars(&inner))
        },
        None => string_of(&trim_chars(&body)),
    }
}

/// The texts that are tried, in order, as JSON for a tool request: the reply
/// without its fence, the trimmed reply, then its first balanced object.
pub fn parse_attempts(response: &str) -> (r: Vec<String>)
    ensures
        r@.len() == 2 || r@.len() == 3,
        r@[0]@ == strip_fences_spec(response@),
        r@[1]@ == trim(response@),
        r@.len() == 3 ==> is_first_object(response@, r@[2]@),
{
    let mut v: Vec<String> = Vec::new();
    v.push(strip_code_fences(response));
    let t = chars_of(response);
    v.push(string_of(&trim_chars(&t)));
    if let Some(o) = extract_json_object(response) {
        v.push(o);
    }
    v
}

/// One parameter of a tool, as the model is told of it.
#[derive(Clone, Debug)]
pub struct ParameterDescription {
    pub name: String,
    pub param_type: String,
    pub description: String,
    pub required: bool,
}

/// One tool of the catalog the model sees.
#[derive(Clone, Debug)]
pub struct ToolDescription {
    pub name: String,
    pub tool_type: String,
    pub description: String,
    pub parameters: Vec<ParameterDescription>,
}

/// The tool type that governs a call: the catalog's entry for the name when
/// there is one, whatever the model said; else the model's own type.
pub open spec fn true_tool_type(catalog: Seq<ToolDescription>, name: Seq<char>, given: Seq<char>) -> Seq<
    char,
> {
    if exists|i: int| 0 <= i < catalog.len() && catalog[i].name@ == name {
        let i = choose|i: int|
            0 <= i < catalog.len() && catalog[i].name@ == name && forall|j: int|
                0 <= j < i ==> catalog[j].name@ != name;
        catalog[i].tool_type@
    } else {
        given
    }
}

/// Looks the tool up by name in the catalog to settle its type: the model
/// sometimes tags a tool with the wrong type, and the catalog decides.
pub fn resolve_tool_type(catalog: &Vec<ToolDescription>, tool_name: &str, given_type: &str) -> (r:
    String)
    ensures
        r@ == true_tool_type(catalog@, tool_name@, given_type@),
{
    let key: String = tool_name.to_owned();
    let n = catalog.len();
    let mut i: usize = 0;
    while i < n
        invariant
            n == catalog@.len(),
            i <= n,
            key@ == tool_name@,
            forall|j: int| 0 <= j < i ==> catalog@[j].name@ != tool_name@,
        decreases n - i,
    {
        if catalog[i].name == key {
            proof {
                let c = choose|c: int|
                    0 <= c < catalog@.len() && catalog@[c].name@ == tool_name@ && forall|j: int|
                        0 <= j < c ==> catalog@[j].name@ != tool_name@;
                assert(0 <= i < catalog@.len() && catalog@[i as int].name@ == tool_name@
                    && forall|j: int| 0 <= j < i ==> catalog@[j].name@ != tool_name@);
                if c < i {
                } else if c > i {
                }
                assert(c == i);
            }
            return catalog[i].tool_type.clone();
        }
        i = i + 1;
    }
    given_type.to_owned()
}

/// The prompt that follows a round of tool results.
pub open spec fn follow_up_prompt() -> Seq<char> {
    "Based on the tool results above, either:\n1. Call more tools if additional information is needed to answer the original question\n2. Provide the final answer to the user in clean markdown format"@
}

/// The answer given when the iteration cap is reached: the gathered tool
/// results with a notice, or a notice alone when there are none.
pub open spec fn cap_message_spec(context: Seq<char>, max_iterations: nat) -> Seq<char> {
    if context.len() > 0 {
        "Based on the research gathered:\n\n"@ + context
            + "\n\nNote: Reached maximum tool iteration limit. The above represents all gathered information."@
    } else {
        "Maximum tool iteration limit ("@ + decimal_of(max_iterations)
            + ") reached before gathering results."@
    }
}

/// What the tool loop does next.
#[derive(Clone, Debug)]
pub enum LoopStep {
    /// Ask the model again with the current prompt.
    Query,
    /// Stop with this answer.
    Finish(String),
}

/// The state of one tool-calling conversation: the question, the prompt for
/// the next turn, the tool results gathered so far, and the turn count.
#[derive(Clone, Debug)]
pub struct ToolLoop {
    pub original_question: String,
    pub prompt: String,
    pub context: String,
    pub iteration: usize,
    pub max_iterations: usize,
}

/// The context after a round of tool results is folded in.
pub open spec fn folded_context(context: Seq<char>, iteration: nat, combined: Seq<char>) -> Seq<
    char,
> {
    if context.len() == 0 {
        "Tool results from iteration "@ + decimal_of(iteration) + ":\n"@ + combined
    } else {
        context + "\n\nTool results from iteration "@ + decimal_of(iteration) + ":\n"@ + combined
    }
}

/// Tool records joined with a rule between each two.
pub open spec fn joined_records(records: Seq<String>) -> Seq<char>
    decreases records.len(),
{
    if records.len() == 0 {
        Seq::empty()
    } else if records.len() == 1 {
        records[0]@
    } else {
        joined_records(records.drop_last()) + "\n\n---\n\n"@ + records.last()@
    }
}

/// Joins tool records with a rule between each two.
pub fn join_records(records: &Vec<String>) -> (r: Vec<char>)
    ensures
        r@ == joined_records(records@),
{
    let mut out: Vec<char> = Vec::new();
    let mut i: usize = 0;
    proof {
        assert(records@.take(0) =~= Seq::<String>::empty());
    }
    while i < records.len()
        invariant
            i <= records@.len(),
            out@ == joined_records(records@.take(i as int)),
        decreases records.len() - i,
    {
        let ghost before = out@;
        if i > 0 {
            append_str(&mut out, "\n\n---\n\n");
        }
        append_str(&mut out, records[i].as_str());
        proof {
            let t = records@.take(i + 1);
            assert(t.drop_last() =~= records@.take(i as int));
            assert(t.last() == records@[i as int]);
            if i == 0 {
                assert(t.len() == 1);
                assert(out@ =~= t[0]@);
            }
        }
        i = i + 1;
    }
    proof {
        assert(records@.take(records@.len() as int) =~= records@);
    }
    out
}

impl ToolLoop {
    /// A conversation about to begin on `question`.
    pub fn new(question: &str, max_iterations: usize) -> (r: ToolLoop)
        ensures
            r.original_question@ == question@,
            r.prompt@ == question@,
            r.context@.len() == 0,
            r.iteration == 0,
            r.max_iterations == max_iterations,
    {
        ToolLoop {
            original_question: question.to_owned(),
            prompt: question.to_owned(),
            context: String::new(),
            iteration: 0,
            max_iterations,
        }
    }

    /// Starts the next turn: counts it, and past the cap stops with the
    /// gathered results instead of asking the model again.
    pub fn begin_iteration(&mut self) -> (r: LoopStep)
        requires
            old(self).iteration <= old(self).max_iterations,
            old(self).max_iterations < usize::MAX,
        ensures
            final(self).iteration == old(self).iteration + 1,
            final(self).original_question == old(self).original_question,
            final(self).prompt == old(self).prompt,
            final(self).context == old(self).context,
            final(self).max_iterations == old(self).max_iterations,
            r is Query <==> final(self).iteration <= final(self).max_iterations,
            r matches LoopStep::Finish(s) ==> s@ == cap_message_spec(
                old(self).context@,
                old(self).max_iterations as nat,
            ),
    {
        self.iteration = self.iteration + 1;
        if self.iteration > self.max_iterations {
            LoopStep::Finish(cap_message(self.context.as_str(), self.max_iterations))
        } else {
            LoopStep::Query
        }
    }

    /// Folds a round of tool records into the context and sets the prompt
    /// for the next turn.
    pub fn fold_results(&mut self, records: &Vec<String>)
        ensures
            final(self).context@ == folded_context(
                old(self).context@,
                old(self).iteration as nat,
                joined_records(records@),
            ),
            final(self).prompt@ == follow_up_prompt(),
            final(self).iteration == old(self).iteration,
            final(self).max_iterations == old(self).max_iterations,
            final(self).original_question == old(self).original_question,
    {
        let combined = join_records(records);
        let mut ctx = chars_of(self.context.as_str());
        if ctx.len() > 0 {
            append_str(&mut ctx, "\n\nTool results from iteration ");
        } else {
            append_str(&mut ctx, "Tool results from iteration ");
        }
        let num = decimal_chars(self.iteration);
        append_chars(&mut ctx, &num);
        append_str(&mut ctx, ":\n");
        append_chars(&mut ctx, &combined);
        proof {
            if old(self).context@.len() > 0 {
                assert(ctx@ =~= folded_context(
                    old(self).context@,
                    old(self).iteration as nat,
                    joined_records(records@),
                ));
            } else {
                assert(ctx@ =~= folded_context(
                    old(self).context@,
                    old(self).iteration as nat,
                    joined_records(records@),
                ));
            }
        }
        self.context = string_of(&ctx);
        self.prompt = "Based on the tool results above, either:\n1. Call more tools if additional information is needed to answer the original question\n2. Provide the final answer to the user in clean markdown format".to_owned();
    }

    /// The question and results that the next prompt carries.
    pub fn full_context(&self) -> (r: String)
        ensures
            self.context@.len() > 0 ==> r@ == "Original user question: "@
                + self.original_question@ + "\n\n"@ + self.context@ + "\n\nCurrent task: "@
                + self.prompt@,
            self.context@.len() == 0 ==> r@ == "User question: "@ + self.prompt@,
    {
        let mut out: Vec<char> = Vec::new();
        if !self.context.as_str().is_empty() {
            append_str(&mut out, "Original user question: ");
            append_str(&mut out, self.original_question.as_str());
            append_str(&mut out, "\n\n");
            append_str(&mut out, self.context.as_str());
            append_str(&mut out, "\n\nCurrent task: ");
            append_str(&mut out, self.prompt.as_str());
        } else {
            append_str(&mut out, "User question: ");
            append_str(&mut out, self.prompt.as_str());
        }
        proof {
            assert(out@ =~= (if self.context@.len() > 0 {
                "Original user question: "@ + self.original_question@ + "\n\n"@ + self.context@
                    + "\n\nCurrent task: "@ + self.prompt@
            } else {
                "User question: "@ + self.prompt@
            }));
        }
        string_of(&out)
    }
}

/// The answer given when the iteration cap is reached.
pub fn cap_message(context: &str, max_iterations: usize) -> (r: String)
    ensures
        r@ == cap_message_spec(context@, max_iterations as nat),
{
    let mut out: Vec<char> = Vec::new();
    if !context.is_empty() {
        append_str(&mut out, "Based on the research gathered:\n\n");
        append_str(&mut out, context);
        append_str(
            &mut out,
            "\n\nNote: Reached maximum tool iteration limit. The above represents all gathered information.",
        );
    } else {
        append_str(&mut out, "Maximum tool iteration limit (");
        let num = decimal_chars(max_iterations);
        append_chars(&mut out, &num);
        append_str(&mut out, ") reached before gathering results.");
    }
    proof {
        assert(out@ =~= cap_message_spec(context@, max_iterations as nat));
    }
    string_of(&out)
}

/// When the cap is reached after tools have run, the answer holds every
/// tool result gathered so far.
pub proof fn lemma_cap_keeps_results(context: Seq<char>, max_iterations: nat)
    requires
        context.len() > 0,
    ensures
        contains(cap_message_spec(context, max_iterations), context),
{
    let pre = "Based on the research gathered:\n\n"@;
    let m = cap_message_spec(context, max_iterations);
    assert(m.subrange(pre.len() as int, pre.len() + context.len() as int) =~= context);
    assert(crate::text::occurs_at(m, context, pre.len() as int));
}

/// Whether a JSON key names research data that condensing must keep: a URL,
/// DOI, author, title, date, citation, link, href, source or reference.
pub open spec fn is_critical_key_spec(lower: Seq<char>) -> bool {
    contains(lower, "url"@) || contains(lower, "doi"@) || contains(lower, "author"@) || contains(
        lower,
        "title"@,
    ) || contains(lower, "date"@) || contains(lower, "citation"@) || contains(lower, "link"@)
        || contains(lower, "href"@) || contains(lower, "source"@) || contains(lower, "reference"@)
}

/// Whether a JSON key, in any case, names research data that must be kept.
pub fn is_critical_key(key: &str) -> (r: bool)
    ensures
        r == is_critical_key_spec(lower_of(key@)),
{
    let l = lowercase(key);
    let c = chars_of(l.as_str());
    contains_chars(&c, &chars_of("url")) || contains_chars(&c, &chars_of("doi")) || contains_chars(
        &c,
        &chars_of("author"),
    ) || contains_chars(&c, &chars_of("title")) || contains_chars(&c, &chars_of("date"))
        || contains_chars(&c, &chars_of("citation")) || contains_chars(&c, &chars_of("link"))
        || contains_chars(&c, &chars_of("href")) || contains_chars(&c, &chars_of("source"))
        || contains_chars(&c, &chars_of("reference"))
}

/// How a long JSON array is sampled: its first five items, a note of how many
/// were left out, and its last two.
#[derive(PartialEq, Eq, Structural, Clone, Copy, Debug)]
pub struct ArraySample {
    pub head: usize,
    pub omitted: usize,
    pub tail_start: usize,
}

/// The sample of an array of `len` items, when it is long enough to sample.
pub fn array_sample(len: usize) -> (r: Option<ArraySample>)
    ensures
        r is Some <==> len > 10,
        r matches Some(a) ==> a.head == 5 && a.omitted == len - 7 && a.tail_start == len - 2
            && a.head + a.omitted + 2 == len,
{
    if len > 10 {
        Some(ArraySample { head: 5, omitted: len - 7, tail_start: len - 2 })
    } else {
        None
    }
}

/// How an over-budget tool result is condensed.
#[derive(PartialEq, Eq, Structural, Clone, Copy, Debug)]
pub enum SummaryChoice {
    /// Within budget: kept as it is.
    Keep,
    /// The structural reduction, followed by the list of critical fields.
    ReducedWithCritical,
    /// The structural reduction alone.
    Reduced,
    /// A call to the summarization model (truncation if that fails).
    Model,
}

/// Chooses how to condense a tool result of `len` bytes under `threshold`:
/// keep it, use a structural reduction of `reduced_len` bytes when one exists
/// and is within twice the budget, else ask the model.
pub fn summary_choice(
    len: usize,
    threshold: usize,
    reduced_len: Option<usize>,
    has_critical: bool,
) -> (r: SummaryChoice)
    ensures
        len <= threshold ==> r == SummaryChoice::Keep,
        len > threshold ==> match reduced_len {
            Some(k) => if k <= 2 * threshold {
                if has_critical && k < threshold {
                    r == SummaryChoice::ReducedWithCritical
                } else {
                    r == SummaryChoice::Reduced
                }
            } else {
                r == SummaryChoice::Model
            },
            None => r == SummaryChoice::Model,
        },
{
    if len <= threshold {
        return SummaryChoice::Keep;
    }
    match reduced_len {
        Some(k) => {
            if k / 2 <= threshold && (k % 2 == 0 || k / 2 < threshold) {
                if has_critical && k < threshold {
                    SummaryChoice::ReducedWithCritical
                } else {
                    SummaryChoice::Reduced
                }
            } else {
                SummaryChoice::Model
            }
        },
        None => SummaryChoice::Model,
    }
}

/// Attempts at one chat request before its failure is reported.
pub const MAX_CHAT_ATTEMPTS: usize = 10;

/// The pause, in seconds, after failed attempt `attempt` (counting from
/// one): 2, 5, then five seconds more each time; none after the last attempt.
pub open spec fn retry_delay_spec(attempt: nat) -> Option<u64> {
    if attempt == 0 || attempt >= MAX_CHAT_ATTEMPTS {
        None
    } else if attempt == 1 {
        Some(2)
    } else {
        Some((5 * (attempt - 1)) as u64)
    }
}

/// The pause before the next attempt at a chat request, if any is left.
pub fn retry_delay_secs(attempt: usize) -> (r: Option<u64>)
    ensures
        r == retry_delay_spec(attempt as nat),
{
    if attempt == 0 || attempt >= MAX_CHAT_ATTEMPTS {
        None
    } else if attempt == 1 {
        Some(2)
    } else {
        Some((5 * (attempt - 1)) as u64)
    }
}

/// The bytes already taken by the fields kept before field `i`.
pub open spec fn kept_size(keys: Seq<String>, sizes: Seq<usize>, max_chars: nat, i: int) -> int
    decreases i, 0int,
{
    if i <= 0 {
        0
    } else {
        kept_size(keys, sizes, max_chars, i - 1) + if keeps_field(keys, sizes, max_chars, i - 1) {
            sizes[i - 1] as int
        } else {
            0
        }
    }
}

/// A large object keeps field `i` when its key is critical, or while the
/// fields kept so far take less than half the budget.
pub open spec fn keeps_field(keys: Seq<String>, sizes: Seq<usize>, max_chars: nat, i: int) -> bool
    decreases i, 1int,
{
    (0 <= i < keys.len() && is_critical_key_spec(lower_of(keys[i]@))) || (i >= 0 && kept_size(
        keys,
        sizes,
        max_chars,
        i,
    ) < max_chars as int / 2)
}

proof fn lemma_kept_size_nonneg(keys: Seq<String>, sizes: Seq<usize>, max_chars: nat, i: int)
    ensures
        kept_size(keys, sizes, max_chars, i) >= 0,
    decreases i,
{
    if i > 0 {
        lemma_kept_size_nonneg(keys, sizes, max_chars, i - 1);
    }
}

/// Which fields of a large object survive condensing, given each key and
/// the size of its value in JSON: every critical field, and the others
/// while the kept fields take less than half the budget.
pub fn select_fields(keys: &Vec<String>, sizes: &Vec<usize>, max_chars: usize) -> (r: Vec<bool>)
    requires
        keys@.len() == sizes@.len(),
    ensures
        r@.len() == keys@.len(),
        forall|i: int| 0 <= i < r@.len() ==> r@[i] == keeps_field(keys@, sizes@, max_chars as nat, i),
        forall|i: int|
            0 <= i < r@.len() && is_critical_key_spec(lower_of(keys@[i]@)) ==> r@[i],
{
    let mut r: Vec<bool> = Vec::new();
    let mut used: usize = 0;
    let mut i: usize = 0;
    while i < keys.len()
        invariant
            keys@.len() == sizes@.len(),
            i <= keys@.len(),
            r@.len() == i,
            forall|j: int| 0 <= j < i ==> r@[j] == keeps_field(keys@, sizes@, max_chars as nat, j),
            used as int == (if kept_size(keys@, sizes@, max_chars as nat, i as int) < usize::MAX {
                kept_size(keys@, sizes@, max_chars as nat, i as int)
            } else {
                usize::MAX as int
            }),
        decreases keys.len() - i,
    {
        proof {
            lemma_kept_size_nonneg(keys@, sizes@, max_chars as nat, i as int);
        }
        let keep = is_critical_key(keys[i].as_str()) || used < max_chars / 2;
        proof {
            assert(keep == keeps_field(keys@, sizes@, max_chars as nat, i as int));
        }
        if keep {
            used = if used > usize::MAX - sizes[i] {
                usize::MAX
            } else {
                used + sizes[i]
            };
        }
        r.push(keep);
        i = i + 1;
    }
    r
}

/// Every record of a round is in the joined records.
pub proof fn lemma_joined_records_contain(records: Seq<String>, j: int)
    requires
        0 <= j < records.len(),
    ensures
        contains(joined_records(records), records[j]@),
    decreases records.len(),
{
    let e = Seq::<char>::empty();
    if records.len() == 1 {
        lemma_contains_self(records[0]@);
    } else if j == records.len() - 1 {
        lemma_contains_self(records.last()@);
        lemma_contains_within(joined_records(records.drop_last()) + "\n\n---\n\n"@, records.last()@, e, records[j]@);
        assert(joined_records(records.drop_last()) + "\n\n---\n\n"@ + records.last()@ + e
            =~= joined_records(records));
    } else {
        lemma_joined_records_contain(records.drop_last(), j);
        assert(records.drop_last()[j] == records[j]);
        lemma_contains_within(e, joined_records(records.drop_last()), "\n\n---\n\n"@ + records.last()@, records[j]@);
        assert(e + joined_records(records.drop_last()) + ("\n\n---\n\n"@ + records.last()@)
            =~= joined_records(records));
    }
}

/// A folded context keeps what came before and every new record.
pub proof fn lemma_fold_keeps(context: Seq<char>, iteration: nat, records: Seq<String>, j: int)
    requires
        0 <= j < records.len(),
    ensures
        contains(folded_context(context, iteration, joined_records(records)), records[j]@),
        contains(folded_context(context, iteration, joined_records(records)), context),
        folded_context(context, iteration, joined_records(records)).len() > 0,
{
    let e = Seq::<char>::empty();
    let c = joined_records(records);
    lemma_joined_records_contain(records, j);
    let f = folded_context(context, iteration, c);
    if context.len() == 0 {
        let pre = "Tool results from iteration "@ + decimal_of(iteration) + ":\n"@;
        lemma_contains_within(pre, c, e, records[j]@);
        assert(pre + c + e =~= f);
        assert(context =~= f.subrange(0, 0));
        assert(occurs_at(f, context, 0));
        reveal_strlit("Tool results from iteration ");
    } else {
        let mid = "\n\nTool results from iteration "@ + decimal_of(iteration) + ":\n"@;
        lemma_contains_within(context + mid, c, e, records[j]@);
        assert(context + mid + c + e =~= f);
        lemma_contains_self(context);
        lemma_contains_within(e, context, mid + c, context);
        assert(e + context + (mid + c) =~= f);
    }
}

/// When the cap is reached after any round of tools, the answer holds every
/// record of that round and everything gathered before it.
pub proof fn lemma_cap_keeps_every_record(
    context: Seq<char>,
    iteration: nat,
    records: Seq<String>,
    max_iterations: nat,
    j: int,
)
    requires
        0 <= j < records.len(),
    ensures
        contains(
            cap_message_spec(folded_context(context, iteration, joined_records(records)), max_iterations),
            records[j]@,
        ),
        contains(
            cap_message_spec(folded_context(context, iteration, joined_records(records)), max_iterations),
            context,
        ),
{
    let f = folded_context(context, iteration, joined_records(records));
    lemma_fold_keeps(context, iteration, records, j);
    let pre = "Based on the research gathered:\n\n"@;
    let post = "\n\nNote: Reached maximum tool iteration limit. The above represents all gathered information."@;
    lemma_contains_within(pre, f, post, records[j]@);
    lemma_contains_within(pre, f, post, context);
}

/// After a round of tools, the next prompt holds the question and every
/// record of the round.
pub proof fn lemma_next_prompt_holds_records(
    question: Seq<char>,
    context: Seq<char>,
    iteration: nat,
    records: Seq<String>,
    j: int,
)
    requires
        0 <= j < records.len(),
    ensures
        ({
            let f = folded_context(context, iteration, joined_records(records));
            let prompt = "Original user question: "@ + question + "\n\n"@ + f + "\n\nCurrent task: "@
                + follow_up_prompt();
            contains(prompt, records[j]@) && contains(prompt, question)
        }),
{
    let f = folded_context(context, iteration, joined_records(records));
    let e = Seq::<char>::empty();
    lemma_fold_keeps(context, iteration, records, j);
    let a = "Original user question: "@ + question + "\n\n"@;
    let z = "\n\nCurrent task: "@ + follow_up_prompt();
    lemma_contains_within(a, f, z, records[j]@);
    assert(a + f + z =~= "Original user question: "@ + question + "\n\n"@ + f + "\n\nCurrent task: "@
        + follow_up_prompt());
    lemma_contains_self(question);
    lemma_contains_within("Original user question: "@, question, "\n\n"@ + f + z, question);
    assert("Original user question: "@ + question + ("\n\n"@ + f + z) =~= "Original user question: "@
        + question + "\n\n"@ + f + "\n\nCurrent task: "@ + follow_up_prompt());
}

} // verus!
