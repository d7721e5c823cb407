use vstd::prelude::*;
use crate::dynamic_context::{lines_of, MemoryNote};
use crate::research::{gap_budget, gap_worker_budget, QuestionAssignment, SubQuestion};
use crate::status::{decimal_chars, decimal_of};
use crate::text::{append_chars, append_str, chars_eq, chars_of, string_of, trim, trim_chars};

verus! {

/// The interval between supervisor reviews, in seconds.
pub const SUPERVISOR_INTERVAL_SECS: u64 = 15;

/// How many recent discoveries and insights a review reads.
pub const REVIEW_DISCOVERIES: usize = 20;

pub const REVIEW_INSIGHTS: usize = 10;

/// The completion count at which gap detection runs when no progress record
/// says otherwise: half the initial workers, rounded up.
pub fn default_midpoint(initial_worker_count: usize) -> (r: usize)
    ensures
        r == (initial_worker_count as int + 1) / 2,
{
    initial_worker_count / 2 + initial_worker_count % 2
}

/// The first review is skipped when there is nothing to review yet.
pub fn should_skip_review(review: usize, discoveries: usize, insights: usize) -> (r: bool)
    ensures
        r == (review == 1 && discoveries == 0 && insights == 0),
{
    review == 1 && discoveries == 0 && insights == 0
}

/// The gap detector found no gap: its reply, trimmed, is `NO_GAPS` or empty.
pub fn is_no_gaps(reply: &str) -> (r: bool)
    ensures
        r == (trim(reply@) == "NO_GAPS"@ || trim(reply@).len() == 0),
{
    let t = trim_chars(&chars_of(reply));
    t.len() == 0 || chars_eq(&t, &chars_of("NO_GAPS"))
}

/// The gap questions sent to the orchestrator: the first ones proposed, at
/// most as many as the gap budget allows.
pub fn take_gap_questions(
    proposed: &Vec<QuestionAssignment>,
    initial_worker_count: usize,
    max_worker_count: usize,
) -> (r: Vec<SubQuestion>)
    ensures
        r@.len() == (if proposed@.len() < gap_budget(
            initial_worker_count as int,
            max_worker_count as int,
        ) {
            proposed@.len() as int
        } else {
            gap_budget(initial_worker_count as int, max_worker_count as int)
        }),
        forall|i: int|
            0 <= i < r@.len() ==> (#[trigger] r@[i]).question@ == proposed@[i].question@
                && r@[i].assigned_worker@ == proposed@[i].worker@,
{
    let budget = gap_worker_budget(initial_worker_count, max_worker_count);
    let n = if proposed.len() < budget {
        proposed.len()
    } else {
        budget
    };
    let mut r: Vec<SubQuestion> = Vec::new();
    let mut i: usize = 0;
    while i < n
        invariant
            n <= proposed@.len(),
            i <= n,
            r@.len() == i,
            forall|k: int|
                0 <= k < i ==> (#[trigger] r@[k]).question@ == proposed@[k].question@
                    && r@[k].assigned_worker@ == proposed@[k].worker@,
        decreases n - i,
    {
        r.push(
            SubQuestion {
                question: proposed[i].question.clone(),
                assigned_worker: proposed[i].worker.clone(),
            },
        );
        i = i + 1;
    }
    r
}

/// The first 200 characters of a text.
pub open spec fn excerpt(s: Seq<char>) -> Seq<char> {
    if s.len() <= 200 {
        s
    } else {
        s.take(200)
    }
}

pub open spec fn review_line(m: MemoryNote) -> Seq<char> {
    "- "@ + excerpt(m.content@) + " (by "@ + m.created_by@ + ")"@
}

/// The memories of a review, one line each, or `(none yet)`.
pub open spec fn review_lines(ms: Seq<MemoryNote>) -> Seq<char> {
    if ms.len() == 0 {
        "(none yet)"@
    } else {
        lines_of(ms, |m: MemoryNote| review_line(m))
    }
}

fn review_lines_exec(ms: &Vec<MemoryNote>) -> (r: Vec<char>)
    ensures
        r@ == review_lines(ms@),
{
    if ms.len() == 0 {
        return chars_of("(none yet)");
    }
    let ghost f = |m: MemoryNote| review_line(m);
    let mut out: Vec<char> = Vec::new();
    let mut i: usize = 0;
    proof {
        assert(ms@.take(0) =~= Seq::<MemoryNote>::empty());
    }
    while i < ms.len()
        invariant
            i <= ms@.len(),
            f == (|m: MemoryNote| review_line(m)),
            out@ == lines_of(ms@.take(i as int), f),
        decreases ms.len() - i,
    {
        let ghost prev = out@;
        if i > 0 {
            append_str(&mut out, "\n");
        }
        append_str(&mut out, "- ");
        let c = chars_of(ms[i].content.as_str());
        let cut = if c.len() <= 200 {
            c
        } else {
            crate::text::slice_chars(&c, 0, 200)
        };
        append_chars(&mut out, &cut);
        append_str(&mut out, " (by ");
        append_str(&mut out, ms[i].created_by.as_str());
        append_str(&mut out, ")");
        proof {
            let t = ms@.take(i + 1);
            assert(t.drop_last() =~= ms@.take(i as int));
            assert(t.last() == ms@[i as int]);
            if ms@[i as int].content@.len() > 200 {
                assert(cut@ =~= ms@[i as int].content@.take(200));
            }
            if i == 0 {
                assert(t[0] == ms@[0]);
                assert(out@ =~= f(ms@[0]));
            } else {
                assert(out@ =~= prev + "\n"@ + f(ms@[i as int]));
            }
        }
        i = i + 1;
    }
    proof {
        assert(ms@.take(ms@.len() as int) =~= ms@);
    }
    out
}

/// The supervisor's review prompt: the query, the plan, and the recent
/// discoveries and insights (newest first).
pub fn review_prompt(
    query: &str,
    plan: &str,
    discoveries: &Vec<MemoryNote>,
    insights: &Vec<MemoryNote>,
) -> (r: String)
    ensures
        r@ == "You are monitoring a multi-agent research session.\n\nORIGINAL QUERY: "@ + query@
            + "\n\nRESEARCH PLAN:\n"@ + plan@ + "\n\nCURRENT DISCOVERIES ("@ + decimal_of(
            discoveries@.len(),
        ) + "):\n"@ + review_lines(discoveries@) + "\n\nCURRENT INSIGHTS ("@ + decimal_of(
            insights@.len(),
        ) + "):\n"@ + review_lines(insights@)
            + "\n\nYour task:\n1. Are agents staying focused on the query and plan?\n2. Are there discoveries/insights that are off-topic or misleading?\n3. What additional context or guidance should be provided?\n\nProvide brief analysis (2-3 sentences) and any recommended guidance to store in feedback memory."@,
{
    let mut out: Vec<char> = chars_of(
        "You are monitoring a multi-agent research session.\n\nORIGINAL QUERY: ",
    );
    append_str(&mut out, query);
    append_str(&mut out, "\n\nRESEARCH PLAN:\n");
    append_str(&mut out, plan);
    append_str(&mut out, "\n\nCURRENT DISCOVERIES (");
    append_chars(&mut out, &decimal_chars(discoveries.len()));
    append_str(&mut out, "):\n");
    append_chars(&mut out, &review_lines_exec(discoveries));
    append_str(&mut out, "\n\nCURRENT INSIGHTS (");
    append_chars(&mut out, &decimal_chars(insights.len()));
    append_str(&mut out, "):\n");
    append_chars(&mut out, &review_lines_exec(insights));
    append_str(
        &mut out,
        "\n\nYour task:\n1. Are agents staying focused on the query and plan?\n2. Are there discoveries/insights that are off-topic or misleading?\n3. What additional context or guidance should be provided?\n\nProvide brief analysis (2-3 sentences) and any recommended guidance to store in feedback memory.",
    );
    string_of(&out)
}

} // verus!
