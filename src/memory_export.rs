use vstd::prelude::*;
use crate::dynamic_context::{lines_of, MemoryNote};
use crate::memory::MemoryStats;
use crate::sources::{insert_sorted, strictly_sorted, views};
use crate::status::{decimal_chars, decimal_of};
use crate::text::{append_chars, append_str, chars_of, string_of};

verus! {

/// A recorded tool call as the memory summary shows it.
#[derive(Clone, Debug)]
pub struct ToolCallRecord {
    pub agent_name: String,
    pub tool_type: String,
    pub tool_name: String,
    /// The parameters, already rendered for display.
    pub parameters: String,
}

/// One call's line under its agent.
pub open spec fn call_line(c: ToolCallRecord) -> Seq<char> {
    "  - `["@ + c.tool_type@ + "] "@ + c.tool_name@ + "` "@ + c.parameters@ + "\n"@
}

/// The calls' lines, one after another.
pub open spec fn call_lines(cs: Seq<ToolCallRecord>) -> Seq<char>
    decreases cs.len(),
{
    if cs.len() == 0 {
        Seq::empty()
    } else {
        call_lines(cs.drop_last()) + call_line(cs.last())
    }
}

/// The calls of one agent, in the order they were made.
pub open spec fn calls_of(cs: Seq<ToolCallRecord>, agent: Seq<char>) -> Seq<ToolCallRecord> {
    cs.filter(|c: ToolCallRecord| c.agent_name@ == agent)
}

/// The blocks of the agents in `agents`, in that order.
pub open spec fn agent_blocks(agents: Seq<Seq<char>>, cs: Seq<ToolCallRecord>) -> Seq<char>
    decreases agents.len(),
{
    if agents.len() == 0 {
        Seq::empty()
    } else {
        agent_blocks(agents.drop_last(), cs) + "\n**"@ + agents.last() + "**:\n"@ + call_lines(
            calls_of(cs, agents.last()),
        )
    }
}

/// The tool-usage part of the memory summary, given the agents that made
/// calls in sorted order.
pub open spec fn tool_usage_spec(agents: Seq<Seq<char>>, cs: Seq<ToolCallRecord>) -> Seq<char> {
    if cs.len() == 0 {
        "### Tool Usage\n\nNo tools were used during this research.\n"@
    } else {
        "### Tool Usage by Agent\n"@ + agent_blocks(agents, cs)
    }
}

pub open spec fn agents_of(cs: Seq<ToolCallRecord>) -> Set<Seq<char>> {
    cs.map_values(|c: ToolCallRecord| c.agent_name@).to_set()
}

fn calls_for(calls: &Vec<ToolCallRecord>, agent: &String) -> (r: Vec<char>)
    ensures
        r@ == call_lines(calls_of(calls@, agent@)),
{
    let ghost p = |c: ToolCallRecord| c.agent_name@ == agent@;
    let mut out: Vec<char> = Vec::new();
    let mut i: usize = 0;
    proof {
        assert(calls@.take(0) =~= Seq::<ToolCallRecord>::empty());
        assert(calls@.take(0).filter(p) =~= Seq::<ToolCallRecord>::empty());
    }
    while i < calls.len()
        invariant
            i <= calls@.len(),
            p == (|c: ToolCallRecord| c.agent_name@ == agent@),
            out@ == call_lines(calls@.take(i as int).filter(p)),
        decreases calls.len() - i,
    {
        let ghost prev = out@;
        proof {
            assert(calls@.take(i + 1) =~= calls@.take(i as int).push(calls@[i as int]));
            calls@.take(i as int).lemma_filter_push(calls@[i as int], p);
        }
        let c = &calls[i];
        if c.agent_name == *agent {
            append_str(&mut out, "  - `[");
            append_str(&mut out, c.tool_type.as_str());
            append_str(&mut out, "] ");
            append_str(&mut out, c.tool_name.as_str());
            append_str(&mut out, "` ");
            append_str(&mut out, c.parameters.as_str());
            append_str(&mut out, "\n");
            proof {
                let f = calls@.take(i as int).filter(p).push(calls@[i as int]);
                assert(f.drop_last() =~= calls@.take(i as int).filter(p));
                assert(out@ =~= prev + call_line(calls@[i as int]));
            }
        }
        i = i + 1;
    }
    proof {
        assert(calls@.take(calls@.len() as int) =~= calls@);
    }
    out
}

/// The tool-usage part of the memory summary: each agent's calls under its
/// name, agents in sorted order, calls in the order they were made.
pub fn tool_usage_section(calls: &Vec<ToolCallRecord>) -> (r: String)
    ensures
        exists|agents: Seq<Seq<char>>|
            {
                &&& strictly_sorted(agents)
                &&& agents.to_set() == agents_of(calls@)
                &&& r@ == tool_usage_spec(agents, calls@)
            },
{
    let mut agents: Vec<String> = Vec::new();
    let mut i: usize = 0;
    proof {
        assert(views(agents@) =~= Seq::<Seq<char>>::empty());
        assert(calls@.take(0).map_values(|c: ToolCallRecord| c.agent_name@) =~= Seq::<Seq<char>>::empty());
        assert(views(agents@).to_set() =~= agents_of(calls@.take(0)));
    }
    while i < calls.len()
        invariant
            i <= calls@.len(),
            strictly_sorted(views(agents@)),
            views(agents@).to_set() == agents_of(calls@.take(i as int)),
        decreases calls.len() - i,
    {
        let ghost before = views(agents@).to_set();
        insert_sorted(&mut agents, calls[i].agent_name.clone());
        proof {
            let f = |c: ToolCallRecord| c.agent_name@;
            assert(calls@.take(i + 1) =~= calls@.take(i as int).push(calls@[i as int]));
            assert(calls@.take(i + 1).map_values(f) =~= calls@.take(i as int).map_values(f).push(
                calls@[i as int].agent_name@,
            ));
            calls@.take(i as int).map_values(f).lemma_push_to_set_commute(calls@[i as int].agent_name@);
        }
        i = i + 1;
    }
    proof {
        assert(calls@.take(calls@.len() as int) =~= calls@);
    }
    let ghost av = views(agents@);
    if calls.len() == 0 {
        let r = "### Tool Usage\n\nNo tools were used during this research.\n".to_owned();
        proof {
            assert(r@ == tool_usage_spec(av, calls@));
        }
        return r;
    }
    let mut out: Vec<char> = chars_of("### Tool Usage by Agent\n");
    let ghost head = out@;
    let mut k: usize = 0;
    proof {
        assert(av.take(0) =~= Seq::<Seq<char>>::empty());
        assert(out@ =~= head + agent_blocks(av.take(0), calls@));
    }
    while k < agents.len()
        invariant
            k <= agents@.len(),
            av == views(agents@),
            out@ == head + agent_blocks(av.take(k as int), calls@),
        decreases agents.len() - k,
    {
        let ghost prev = out@;
        append_str(&mut out, "\n**");
        append_str(&mut out, agents[k].as_str());
        append_str(&mut out, "**:\n");
        let lines = calls_for(calls, &agents[k]);
        append_chars(&mut out, &lines);
        proof {
            let t = av.take(k + 1);
            assert(t.drop_last() =~= av.take(k as int));
            assert(t.last() == agents@[k as int]@);
            assert(out@ =~= head + agent_blocks(t, calls@));
        }
        k = k + 1;
    }
    proof {
        assert(av.take(av.len() as int) =~= av);
    }
    string_of(&out)
}

/// A supervisor critique as the summary lists it.
#[derive(Clone, Debug)]
pub struct FeedbackNote {
    pub iteration: String,
    pub content: String,
}

pub open spec fn memory_item_line(m: MemoryNote) -> Seq<char> {
    "- **["@ + m.created_by@ + "]**: "@ + m.content@
}

pub open spec fn feedback_item_line(f: FeedbackNote) -> Seq<char> {
    "- **Iteration "@ + f.iteration@ + "**: "@ + f.content@
}

fn memory_items(ms: &Vec<MemoryNote>) -> (r: Vec<char>)
    ensures
        r@ == lines_of(ms@, |m: MemoryNote| memory_item_line(m)),
{
    let ghost f = |m: MemoryNote| memory_item_line(m);
    let mut out: Vec<char> = Vec::new();
    let mut i: usize = 0;
    proof {
        assert(ms@.take(0) =~= Seq::<MemoryNote>::empty());
    }
    while i < ms.len()
        invariant
            i <= ms@.len(),
            f == (|m: MemoryNote| memory_item_line(m)),
            out@ == lines_of(ms@.take(i as int), f),
        decreases ms.len() - i,
    {
        let ghost prev = out@;
        if i > 0 {
            append_str(&mut out, "\n");
        }
        append_str(&mut out, "- **[");
        append_str(&mut out, ms[i].created_by.as_str());
        append_str(&mut out, "]**: ");
        append_str(&mut out, ms[i].content.as_str());
        proof {
            let t = ms@.take(i + 1);
            assert(t.drop_last() =~= ms@.take(i as int));
            assert(t.last() == ms@[i as int]);
            if i == 0 {
                assert(t[0] == ms@[0]);
                assert(out@ =~= f(ms@[0]));
            } else {
                assert(out@ =~= prev + "\n"@ + f(ms@[i as int]));
            }
        }
        i = i + 1;
    }
    proof {
        assert(ms@.take(ms@.len() as int) =~= ms@);
    }
    out
}

fn feedback_items(fs: &Vec<FeedbackNote>) -> (r: Vec<char>)
    ensures
        r@ == lines_of(fs@, |f: FeedbackNote| feedback_item_line(f)),
{
    let ghost g = |f: FeedbackNote| feedback_item_line(f);
    let mut out: Vec<char> = Vec::new();
    let mut i: usize = 0;
    proof {
        assert(fs@.take(0) =~= Seq::<FeedbackNote>::empty());
    }
    while i < fs.len()
        invariant
            i <= fs@.len(),
            g == (|f: FeedbackNote| feedback_item_line(f)),
            out@ == lines_of(fs@.take(i as int), g),
        decreases fs.len() - i,
    {
        let ghost prev = out@;
        if i > 0 {
            append_str(&mut out, "\n");
        }
        append_str(&mut out, "- **Iteration ");
        append_str(&mut out, fs[i].iteration.as_str());
        append_str(&mut out, "**: ");
        append_str(&mut out, fs[i].content.as_str());
        proof {
            let t = fs@.take(i + 1);
            assert(t.drop_last() =~= fs@.take(i as int));
            assert(t.last() == fs@[i as int]);
            if i == 0 {
                assert(t[0] == fs@[0]);
                assert(out@ =~= g(fs@[0]));
            } else {
                assert(out@ =~= prev + "\n"@ + g(fs@[i as int]));
            }
        }
        i = i + 1;
    }
    proof {
        assert(fs@.take(fs@.len() as int) =~= fs@);
    }
    out
}

/// One listed section of the summary: its title, count and items.
pub open spec fn listed_section(title: Seq<char>, n: nat, items: Seq<char>) -> Seq<char> {
    "### "@ + title + " ("@ + decimal_of(n) + ")\n\n"@ + items
}

fn listed_section_exec(title: &str, n: usize, items: &Vec<char>) -> (r: Vec<char>)
    ensures
        r@ == listed_section(title@, n as nat, items@),
{
    let mut out: Vec<char> = chars_of("### ");
    append_str(&mut out, title);
    append_str(&mut out, " (");
    append_chars(&mut out, &decimal_chars(n));
    append_str(&mut out, ")\n\n");
    append_chars(&mut out, items);
    proof {
        assert(out@ =~= listed_section(title@, n as nat, items@));
    }
    out
}

/// The heading line of the summary, with the counts.
pub open spec fn summary_head(s: MemoryStats) -> Seq<char> {
    "\n\n---\n\n## Research Memory Summary\n\n**Total Memories**: "@ + decimal_of(
        s.total_count as nat,
    ) + " (Discoveries: "@ + decimal_of(s.discovery_count as nat) + ", Insights: "@ + decimal_of(
        s.insight_count as nat,
    ) + ", Deadends: "@ + decimal_of(s.deadend_count as nat) + ", Feedback: "@ + decimal_of(
        s.feedback_count as nat,
    ) + ")\n\n"@
}

fn summary_head_exec(s: &MemoryStats) -> (r: Vec<char>)
    ensures
        r@ == summary_head(*s),
{
    let mut out: Vec<char> = chars_of(
        "\n\n---\n\n## Research Memory Summary\n\n**Total Memories**: ",
    );
    append_chars(&mut out, &decimal_chars(s.total_count));
    append_str(&mut out, " (Discoveries: ");
    append_chars(&mut out, &decimal_chars(s.discovery_count));
    append_str(&mut out, ", Insights: ");
    append_chars(&mut out, &decimal_chars(s.insight_count));
    append_str(&mut out, ", Deadends: ");
    append_chars(&mut out, &decimal_chars(s.deadend_count));
    append_str(&mut out, ", Feedback: ");
    append_chars(&mut out, &decimal_chars(s.feedback_count));
    append_str(&mut out, ")\n\n");
    proof {
        assert(out@ =~= summary_head(*s));
    }
    out
}

/// The research-memory section appended to the document: counts, tool
/// usage, then the discoveries, insights, dead ends and feedback.
pub fn memory_summary(
    stats: &MemoryStats,
    tool_usage: &str,
    discoveries: &Vec<MemoryNote>,
    insights: &Vec<MemoryNote>,
    deadends: &Vec<MemoryNote>,
    feedback: &Vec<FeedbackNote>,
) -> (r: String)
    ensures
        r@ == summary_head(*stats) + tool_usage@ + "\n"@ + listed_section(
            "Discoveries"@,
            discoveries@.len(),
            lines_of(discoveries@, |m: MemoryNote| memory_item_line(m)),
        ) + "\n\n"@ + listed_section(
            "Insights"@,
            insights@.len(),
            lines_of(insights@, |m: MemoryNote| memory_item_line(m)),
        ) + "\n\n"@ + listed_section(
            "Deadends"@,
            deadends@.len(),
            lines_of(deadends@, |m: MemoryNote| memory_item_line(m)),
        ) + "\n\n"@ + listed_section(
            "Supervisor Feedback"@,
            feedback@.len(),
            lines_of(feedback@, |f: FeedbackNote| feedback_item_line(f)),
        ) + "\n"@,
{
    let mut out = summary_head_exec(stats);
    append_str(&mut out, tool_usage);
    append_str(&mut out, "\n");
    append_chars(&mut out, &listed_section_exec("Discoveries", discoveries.len(), &memory_items(discoveries)));
    append_str(&mut out, "\n\n");
    append_chars(&mut out, &listed_section_exec("Insights", insights.len(), &memory_items(insights)));
    append_str(&mut out, "\n\n");
    append_chars(&mut out, &listed_section_exec("Deadends", deadends.len(), &memory_items(deadends)));
    append_str(&mut out, "\n\n");
    append_chars(
        &mut out,
        &listed_section_exec("Supervisor Feedback", feedback.len(), &feedback_items(feedback)),
    );
    append_str(&mut out, "\n");
    string_of(&out)
}

} // verus!
