use vstd::prelude::*;
use crate::status::{decimal_chars, decimal_of};
use crate::text::{append_chars, append_str, chars_of, string_of};

verus! {

/// What a working note records.
#[derive(PartialEq, Eq, Structural, Clone, Copy, Debug)]
pub enum NoteType {
    Observation,
    PartialAnswer,
    FollowUp,
    ToolResult,
    Thought,
}

pub open spec fn note_type_name(t: NoteType) -> Seq<char> {
    match t {
        NoteType::Observation => "Observation"@,
        NoteType::PartialAnswer => "PartialAnswer"@,
        NoteType::FollowUp => "FollowUp"@,
        NoteType::ToolResult => "ToolResult"@,
        NoteType::Thought => "Thought"@,
    }
}

fn note_type_str(t: NoteType) -> (r: &'static str)
    ensures
        r@ == note_type_name(t),
{
    match t {
        NoteType::Observation => "Observation",
        NoteType::PartialAnswer => "PartialAnswer",
        NoteType::FollowUp => "FollowUp",
        NoteType::ToolResult => "ToolResult",
        NoteType::Thought => "Thought",
    }
}

/// A short-term note of one agent, with the iteration it was made in.
#[derive(Clone, Debug)]
pub struct WorkingNote {
    pub content: String,
    pub note_type: NoteType,
    pub iteration: usize,
}

/// One key of an agent's state with its value.
#[derive(Clone, Debug)]
pub struct StateEntry {
    pub key: String,
    pub value: String,
}

/// The value stored under `key`.
pub open spec fn state_lookup(s: Seq<StateEntry>, key: Seq<char>) -> Option<Seq<char>>
    decreases s.len(),
{
    if s.len() == 0 {
        None
    } else if s.last().key@ == key {
        Some(s.last().value@)
    } else {
        state_lookup(s.drop_last(), key)
    }
}

/// One line of the working-notes section.
pub open spec fn note_line(n: WorkingNote) -> Seq<char> {
    "[Iteration "@ + decimal_of(n.iteration as nat) + ", "@ + note_type_name(n.note_type) + "] "@
        + n.content@
}

/// Lines joined by newlines, each made by `f`.
pub open spec fn lines_of<T>(items: Seq<T>, f: spec_fn(T) -> Seq<char>) -> Seq<char>
    decreases items.len(),
{
    if items.len() == 0 {
        Seq::empty()
    } else if items.len() == 1 {
        f(items[0])
    } else {
        lines_of(items.drop_last(), f) + "\n"@ + f(items.last())
    }
}

pub open spec fn state_line(e: StateEntry) -> Seq<char> {
    e.key@ + ": "@ + e.value@
}

/// The context block: global context, task, then the memory, notes and state
/// sections, each only when it has something in it.
pub open spec fn prompt_context_spec(
    global: Seq<char>,
    query: Seq<char>,
    memory: Option<Seq<char>>,
    notes: Seq<WorkingNote>,
    state: Seq<StateEntry>,
) -> Seq<char> {
    global + "\n\nYour assigned task: "@ + query + (match memory {
        Some(m) => "\n\n"@ + m,
        None => Seq::empty(),
    }) + (if notes.len() > 0 {
        "\n\n=== Your working notes ===\n"@ + lines_of(notes, |n: WorkingNote| note_line(n))
            + "\n=========================="@
    } else {
        Seq::empty()
    }) + (if state.len() > 0 {
        "\n\n=== State ===\n"@ + lines_of(state, |e: StateEntry| state_line(e))
            + "\n============="@
    } else {
        Seq::empty()
    })
}

proof fn lemma_state_update(s: Seq<StateEntry>, k: int, e: StateEntry, t: Seq<char>)
    requires
        0 <= k < s.len(),
        e.key@ == s[k].key@,
        forall|j: int| k < j < s.len() ==> (#[trigger] s[j]).key@ != e.key@,
    ensures
        state_lookup(s.update(k, e), t) == (if t == e.key@ {
            Some(e.value@)
        } else {
            state_lookup(s, t)
        }),
    decreases s.len(),
{
    let u = s.update(k, e);
    if k == s.len() - 1 {
        assert(u.drop_last() =~= s.drop_last());
    } else {
        assert(u.drop_last() =~= s.drop_last().update(k, e));
        assert(u.last() == s.last());
        lemma_state_update(s.drop_last(), k, e, t);
    }
}

/// Whether the shared memory is to be read: never read yet, or last read
/// in an earlier iteration.
pub open spec fn memory_sync_due(last: Option<usize>, iteration: usize) -> bool {
    match last {
        None => true,
        Some(l) => l < iteration,
    }
}

/// A new context reads the shared memory once at task start, and not again
/// until the next iteration.
pub proof fn lemma_new_context_syncs_once(iteration: usize)
    ensures
        memory_sync_due(None, iteration),
        !memory_sync_due(Some(iteration), iteration),
{
}

/// The per-worker context: its task, its notes and state, and when it last
/// read the shared memory.
pub struct DynamicContext {
    pub original_query: String,
    pub agent_prompt: String,
    pub iteration: usize,
    pub working_notes: Vec<WorkingNote>,
    pub state: Vec<StateEntry>,
    /// The iteration in which the shared memory was last read, if ever.
    pub last_memory_sync: Option<usize>,
}

impl DynamicContext {
    /// A context for an agent about to work on `query`.
    pub fn new(query: String, agent_prompt: String) -> (r: DynamicContext)
        ensures
            r.original_query == query,
            r.agent_prompt == agent_prompt,
            r.iteration == 0,
            r.working_notes@.len() == 0,
            r.state@.len() == 0,
            r.last_memory_sync is None,
    {
        DynamicContext {
            original_query: query,
            agent_prompt,
            iteration: 0,
            working_notes: Vec::new(),
            state: Vec::new(),
            last_memory_sync: None,
        }
    }

    /// Moves to the next tool turn.
    pub fn next_iteration(&mut self)
        requires
            old(self).iteration < usize::MAX,
        ensures
            final(self).iteration == old(self).iteration + 1,
            final(self).working_notes == old(self).working_notes,
            final(self).state == old(self).state,
            final(self).original_query == old(self).original_query,
            final(self).agent_prompt == old(self).agent_prompt,
            final(self).last_memory_sync == old(self).last_memory_sync,
    {
        self.iteration = self.iteration + 1;
    }

    pub fn current_iteration(&self) -> (r: usize)
        ensures
            r == self.iteration,
    {
        self.iteration
    }

    /// Records a note made in the current iteration.
    pub fn add_note(&mut self, content: String, note_type: NoteType)
        ensures
            final(self).working_notes@.len() == old(self).working_notes@.len() + 1,
            final(self).working_notes@.drop_last() == old(self).working_notes@,
            final(self).working_notes@.last().content == content,
            final(self).working_notes@.last().note_type == note_type,
            final(self).working_notes@.last().iteration == old(self).iteration,
            final(self).iteration == old(self).iteration,
            final(self).state == old(self).state,
            final(self).original_query == old(self).original_query,
            final(self).agent_prompt == old(self).agent_prompt,
            final(self).last_memory_sync == old(self).last_memory_sync,
    {
        let it = self.iteration;
        self.working_notes.push(WorkingNote { content, note_type, iteration: it });
        proof {
            assert(self.working_notes@.drop_last() =~= old(self).working_notes@);
        }
    }

    pub fn get_notes(&self) -> (r: &[WorkingNote])
        ensures
            r@ == self.working_notes@,
    {
        self.working_notes.as_slice()
    }

    /// The notes made in the current iteration, in order.
    pub fn get_current_iteration_notes(&self) -> (r: Vec<WorkingNote>)
        ensures
            r@ == self.working_notes@.filter(|n: WorkingNote| n.iteration == self.iteration),
    {
        let ghost p = |n: WorkingNote| n.iteration == self.iteration;
        let mut r: Vec<WorkingNote> = Vec::new();
        let mut i: usize = 0;
        proof {
            assert(self.working_notes@.take(0) =~= Seq::<WorkingNote>::empty());
            assert(r@ =~= self.working_notes@.take(0).filter(p));
        }
        while i < self.working_notes.len()
            invariant
                i <= self.working_notes@.len(),
                p == (|n: WorkingNote| n.iteration == self.iteration),
                r@ == self.working_notes@.take(i as int).filter(p),
            decreases self.working_notes.len() - i,
        {
            let ghost prev = r@;
            proof {
                assert(self.working_notes@.take(i + 1) =~= self.working_notes@.take(i as int).push(
                    self.working_notes@[i as int],
                ));
                self.working_notes@.take(i as int).lemma_filter_push(self.working_notes@[i as int], p);
            }
            let n = &self.working_notes[i];
            if n.iteration == self.iteration {
                let copy = WorkingNote {
                    content: n.content.clone(),
                    note_type: n.note_type,
                    iteration: n.iteration,
                };
                r.push(copy);
                proof {
                    assert(r@ =~= prev.push(self.working_notes@[i as int]));
                }
            }
            i = i + 1;
        }
        proof {
            assert(self.working_notes@.take(i as int) =~= self.working_notes@);
        }
        r
    }

    pub fn clear_notes(&mut self)
        ensures
            final(self).working_notes@.len() == 0,
            final(self).iteration == old(self).iteration,
            final(self).state == old(self).state,
            final(self).original_query == old(self).original_query,
            final(self).agent_prompt == old(self).agent_prompt,
            final(self).last_memory_sync == old(self).last_memory_sync,
    {
        self.working_notes.clear();
    }

    /// Stores `value` under `key`, replacing any earlier value.
    pub fn set_state(&mut self, key: String, value: String)
        ensures
            state_lookup(final(self).state@, key@) == Some(value@),
            forall|k: Seq<char>|
                k != key@ ==> state_lookup(final(self).state@, k) == state_lookup(
                    old(self).state@,
                    k,
                ),
            final(self).iteration == old(self).iteration,
            final(self).working_notes == old(self).working_notes,
            final(self).original_query == old(self).original_query,
            final(self).agent_prompt == old(self).agent_prompt,
            final(self).last_memory_sync == old(self).last_memory_sync,
    {
        let n = self.state.len();
        let mut i: usize = n;
        let mut found: Option<usize> = None;
        proof {
            assert(self.state@.take(n as int) =~= self.state@);
        }
        while i > 0 && found.is_none()
            invariant
                i <= n == self.state@.len(),
                self.state@ == old(self).state@,
                found is None ==> state_lookup(self.state@, key@) == state_lookup(
                    self.state@.take(i as int),
                    key@,
                ),
                found is None ==> forall|j: int|
                    i <= j < n ==> (#[trigger] self.state@[j]).key@ != key@,
                found matches Some(k) ==> k < n && self.state@[k as int].key@ == key@ && forall|
                    j: int,
                | k < j < n ==> (#[trigger] self.state@[j]).key@ != key@,
            decreases i,
        {
            proof {
                assert(self.state@.take(i as int).drop_last() =~= self.state@.take(i - 1));
            }
            if self.state[i - 1].key == key {
                found = Some(i - 1);
            }
            i = i - 1;
        }
        match found {
            Some(k) => {
                let entry = StateEntry { key, value };
                proof {
                    assert forall|t: Seq<char>| true implies #[trigger] state_lookup(
                        self.state@.update(k as int, entry),
                        t,
                    ) == (if t == entry.key@ {
                        Some(entry.value@)
                    } else {
                        state_lookup(self.state@, t)
                    }) by {
                        lemma_state_update(self.state@, k as int, entry, t);
                    }
                }
                self.state.set(k, entry);
            },
            None => {
                self.state.push(StateEntry { key, value });
                proof {
                    assert(self.state@.drop_last() =~= old(self).state@);
                }
            },
        }
    }

    /// The value stored under `key`, if any.
    pub fn get_state(&self, key: &str) -> (r: Option<&String>)
        ensures
            r matches Some(v) ==> state_lookup(self.state@, key@) == Some(v@),
            r is None ==> state_lookup(self.state@, key@) is None,
    {
        let k: String = key.to_owned();
        let mut i: usize = self.state.len();
        proof {
            assert(self.state@.take(i as int) =~= self.state@);
        }
        while i > 0
            invariant
                i <= self.state@.len(),
                k@ == key@,
                state_lookup(self.state@, key@) == state_lookup(self.state@.take(i as int), key@),
            decreases i,
        {
            proof {
                assert(self.state@.take(i as int).drop_last() =~= self.state@.take(i - 1));
            }
            if self.state[i - 1].key == k {
                return Some(&self.state[i - 1].value);
            }
            i = i - 1;
        }
        None
    }

    /// Whether the shared memory is read now: on the first call, so that the
    /// context is assembled at task start, then at most once per iteration.
    pub fn take_memory_sync(&mut self) -> (r: bool)
        ensures
            r == memory_sync_due(old(self).last_memory_sync, old(self).iteration),
            final(self).last_memory_sync == (if r {
                Some(old(self).iteration)
            } else {
                old(self).last_memory_sync
            }),
            final(self).iteration == old(self).iteration,
            final(self).working_notes == old(self).working_notes,
            final(self).state == old(self).state,
            final(self).original_query == old(self).original_query,
            final(self).agent_prompt == old(self).agent_prompt,
    {
        let due = match self.last_memory_sync {
            None => true,
            Some(last) => last < self.iteration,
        };
        if due {
            self.last_memory_sync = Some(self.iteration);
        }
        due
    }

    pub fn get_query(&self) -> (r: &str)
        ensures
            r@ == self.original_query@,
    {
        self.original_query.as_str()
    }

    pub fn get_agent_prompt(&self) -> (r: &str)
        ensures
            r@ == self.agent_prompt@,
    {
        self.agent_prompt.as_str()
    }

    /// The context block put before a worker's prompt: the global context,
    /// the task, the memory section when there is one, then notes and state
    /// when there are any; sections are separated by a blank line.
    pub fn build_prompt_context(&self, global: &str, memory_section: Option<String>) -> (r: String)
        ensures
            r@ == prompt_context_spec(
                global@,
                self.original_query@,
                match memory_section {
                    Some(m) => Some(m@),
                    None => None,
                },
                self.working_notes@,
                self.state@,
            ),
    {
        let mut out: Vec<char> = chars_of(global);
        append_str(&mut out, "\n\nYour assigned task: ");
        append_str(&mut out, self.original_query.as_str());
        if let Some(m) = &memory_section {
            append_str(&mut out, "\n\n");
            append_str(&mut out, m.as_str());
        }
        let ghost a = out@;
        if self.working_notes.len() > 0 {
            append_str(&mut out, "\n\n=== Your working notes ===\n");
            let notes = notes_text(&self.working_notes);
            append_chars(&mut out, &notes);
            append_str(&mut out, "\n==========================");
        }
        let ghost b = out@;
        if self.state.len() > 0 {
            append_str(&mut out, "\n\n=== State ===\n");
            let st = state_text(&self.state);
            append_chars(&mut out, &st);
            append_str(&mut out, "\n=============");
        }
        proof {
            assert(out@ =~= prompt_context_spec(
                global@,
                self.original_query@,
                match memory_section {
                    Some(m) => Some(m@),
                    None => None,
                },
                self.working_notes@,
                self.state@,
            ));
        }
        string_of(&out)
    }
}

fn notes_text(notes: &Vec<WorkingNote>) -> (r: Vec<char>)
    ensures
        r@ == lines_of(notes@, |n: WorkingNote| note_line(n)),
{
    let ghost f = |n: WorkingNote| note_line(n);
    let mut out: Vec<char> = Vec::new();
    let mut i: usize = 0;
    proof {
        assert(notes@.take(0) =~= Seq::<WorkingNote>::empty());
    }
    while i < notes.len()
        invariant
            i <= notes@.len(),
            f == (|n: WorkingNote| note_line(n)),
            out@ == lines_of(notes@.take(i as int), f),
        decreases notes.len() - i,
    {
        let ghost prev = out@;
        if i > 0 {
            append_str(&mut out, "\n");
        }
        append_str(&mut out, "[Iteration ");
        append_chars(&mut out, &decimal_chars(notes[i].iteration));
        append_str(&mut out, ", ");
        append_str(&mut out, note_type_str(notes[i].note_type));
        append_str(&mut out, "] ");
        append_str(&mut out, notes[i].content.as_str());
        proof {
            let t = notes@.take(i + 1);
            assert(t.drop_last() =~= notes@.take(i as int));
            assert(t.last() == notes@[i as int]);
            if i == 0 {
                assert(t[0] == notes@[0]);
                assert(out@ =~= f(notes@[0]));
            } else {
                assert(out@ =~= prev + "\n"@ + f(notes@[i as int]));
            }
        }
        i = i + 1;
    }
    proof {
        assert(notes@.take(notes@.len() as int) =~= notes@);
    }
    out
}

fn state_text(state: &Vec<StateEntry>) -> (r: Vec<char>)
    ensures
        r@ == lines_of(state@, |e: StateEntry| state_line(e)),
{
    let ghost f = |e: StateEntry| state_line(e);
    let mut out: Vec<char> = Vec::new();
    let mut i: usize = 0;
    proof {
        assert(state@.take(0) =~= Seq::<StateEntry>::empty());
    }
    while i < state.len()
        invariant
            i <= state@.len(),
            f == (|e: StateEntry| state_line(e)),
            out@ == lines_of(state@.take(i as int), f),
        decreases state.len() - i,
    {
        let ghost prev = out@;
        if i > 0 {
            append_str(&mut out, "\n");
        }
        append_str(&mut out, state[i].key.as_str());
        append_str(&mut out, ": ");
        append_str(&mut out, state[i].value.as_str());
        proof {
            let t = state@.take(i + 1);
            assert(t.drop_last() =~= state@.take(i as int));
            assert(t.last() == state@[i as int]);
            if i == 0 {
                assert(t[0] == state@[0]);
                assert(out@ =~= f(state@[0]));
            } else {
                assert(out@ =~= prev + "\n"@ + f(state@[i as int]));
            }
        }
        i = i + 1;
    }
    proof {
        assert(state@.take(state@.len() as int) =~= state@);
    }
    out
}

/// A stored memory as a worker sees it: its type name, text and author.
#[derive(Clone, Debug)]
pub struct MemoryNote {
    pub kind: String,
    pub content: String,
    pub created_by: String,
}

/// The last `n` items, newest first.
pub open spec fn newest_first<T>(items: Seq<T>, n: nat) -> Seq<T> {
    let k = if n < items.len() {
        n as int
    } else {
        items.len() as int
    };
    Seq::new(k as nat, |i: int| items[items.len() - 1 - i])
}

/// The last `n` memories, newest first.
pub fn take_newest(items: &Vec<MemoryNote>, n: usize) -> (r: Vec<MemoryNote>)
    ensures
        r@ == newest_first(items@, n as nat),
{
    let len = items.len();
    let k = if n < len {
        n
    } else {
        len
    };
    let mut r: Vec<MemoryNote> = Vec::new();
    let mut i: usize = 0;
    while i < k
        invariant
            k <= len == items@.len(),
            k == (if n < len {
                n
            } else {
                len
            }),
            i <= k,
            r@.len() == i,
            forall|j: int| 0 <= j < i ==> r@[j] == items@[len - 1 - j],
        decreases k - i,
    {
        let m = &items[len - 1 - i];
        r.push(
            MemoryNote {
                kind: m.kind.clone(),
                content: m.content.clone(),
                created_by: m.created_by.clone(),
            },
        );
        i = i + 1;
    }
    proof {
        assert(r@ =~= newest_first(items@, n as nat));
    }
    r
}

pub open spec fn feedback_line(m: MemoryNote) -> Seq<char> {
    "\u{2022} "@ + m.content@ + " (by "@ + m.created_by@ + ")"@
}

pub open spec fn finding_line(m: MemoryNote) -> Seq<char> {
    "\u{2022} ["@ + m.kind@ + "] "@ + m.content@ + " (by "@ + m.created_by@ + ")"@
}

/// Blocks of text joined by blank lines.
pub open spec fn blocks(parts: Seq<Seq<char>>) -> Seq<char>
    decreases parts.len(),
{
    if parts.len() == 0 {
        Seq::empty()
    } else if parts.len() == 1 {
        parts[0]
    } else {
        blocks(parts.drop_last()) + "\n\n"@ + parts.last()
    }
}

/// The memory blocks of a worker's context: the latest plan, all feedback
/// (newest first) and the recent findings, each only when it has content.
pub open spec fn memory_blocks(
    plans: Seq<MemoryNote>,
    feedback: Seq<MemoryNote>,
    findings: Seq<MemoryNote>,
) -> Seq<Seq<char>> {
    (if plans.len() > 0 {
        seq![
            "=== Research Plan (by "@ + plans.last().created_by@ + ") ===\n"@
                + plans.last().content@ + "\n================================"@,
        ]
    } else {
        Seq::empty()
    }) + (if feedback.len() > 0 {
        seq![
            "=== Leader Feedback & Adjustments ===\n"@ + lines_of(
                newest_first(feedback, feedback.len()),
                |m: MemoryNote| feedback_line(m),
            ) + "\n====================================="@,
        ]
    } else {
        Seq::empty()
    }) + (if findings.len() > 0 {
        seq![
            "=== Recent findings from other agents ===\n"@ + lines_of(
                findings,
                |m: MemoryNote| finding_line(m),
            ) + "\n========================================="@,
        ]
    } else {
        Seq::empty()
    })
}

fn memory_lines(items: &Vec<MemoryNote>, with_kind: bool) -> (r: Vec<char>)
    ensures
        with_kind ==> r@ == lines_of(items@, |m: MemoryNote| finding_line(m)),
        !with_kind ==> r@ == lines_of(items@, |m: MemoryNote| feedback_line(m)),
{
    let ghost f = if with_kind {
        |m: MemoryNote| finding_line(m)
    } else {
        |m: MemoryNote| feedback_line(m)
    };
    let mut out: Vec<char> = Vec::new();
    let mut i: usize = 0;
    proof {
        assert(items@.take(0) =~= Seq::<MemoryNote>::empty());
    }
    while i < items.len()
        invariant
            i <= items@.len(),
            f == (if with_kind {
                |m: MemoryNote| finding_line(m)
            } else {
                |m: MemoryNote| feedback_line(m)
            }),
            out@ == lines_of(items@.take(i as int), f),
        decreases items.len() - i,
    {
        let ghost prev = out@;
        if i > 0 {
            append_str(&mut out, "\n");
        }
        if with_kind {
            append_str(&mut out, "\u{2022} [");
            append_str(&mut out, items[i].kind.as_str());
            append_str(&mut out, "] ");
        } else {
            append_str(&mut out, "\u{2022} ");
        }
        append_str(&mut out, items[i].content.as_str());
        append_str(&mut out, " (by ");
        append_str(&mut out, items[i].created_by.as_str());
        append_str(&mut out, ")");
        proof {
            let t = items@.take(i + 1);
            assert(t.drop_last() =~= items@.take(i as int));
            assert(t.last() == items@[i as int]);
            if i == 0 {
                assert(t[0] == items@[0]);
                assert(out@ =~= f(items@[0]));
            } else {
                assert(out@ =~= prev + "\n"@ + f(items@[i as int]));
            }
        }
        i = i + 1;
    }
    proof {
        assert(items@.take(items@.len() as int) =~= items@);
    }
    out
}

/// The memory section of a worker's context from the stored plans,
/// feedback, discoveries, insights and dead ends (each oldest first); none
/// when there is nothing to show, so no empty heading ever appears.
pub fn memory_context_section(
    plans: &Vec<MemoryNote>,
    feedback: &Vec<MemoryNote>,
    discoveries: &Vec<MemoryNote>,
    insights: &Vec<MemoryNote>,
    deadends: &Vec<MemoryNote>,
) -> (r: Option<String>)
    ensures
        ({
            let findings = newest_first(discoveries@, 3) + newest_first(insights@, 2)
                + newest_first(deadends@, 2);
            let parts = memory_blocks(plans@, feedback@, findings);
            &&& r is None <==> parts.len() == 0
            &&& r matches Some(t) ==> t@ == blocks(parts)
        }),
        r is None <==> (plans@.len() == 0 && feedback@.len() == 0 && discoveries@.len() == 0
            && insights@.len() == 0 && deadends@.len() == 0),
{
    let mut findings = take_newest(discoveries, 3);
    let ins = take_newest(insights, 2);
    let dead = take_newest(deadends, 2);
    let ghost f0 = findings@;
    let mut j: usize = 0;
    while j < ins.len()
        invariant
            j <= ins@.len(),
            findings@ == f0 + ins@.take(j as int),
        decreases ins.len() - j,
    {
        let m = &ins[j];
        findings.push(
            MemoryNote {
                kind: m.kind.clone(),
                content: m.content.clone(),
                created_by: m.created_by.clone(),
            },
        );
        j = j + 1;
        proof {
            assert(findings@ =~= f0 + ins@.take(j as int));
        }
    }
    let ghost f1 = findings@;
    proof {
        assert(ins@.take(ins@.len() as int) =~= ins@);
    }
    let mut j: usize = 0;
    while j < dead.len()
        invariant
            j <= dead@.len(),
            findings@ == f1 + dead@.take(j as int),
        decreases dead.len() - j,
    {
        let m = &dead[j];
        findings.push(
            MemoryNote {
                kind: m.kind.clone(),
                content: m.content.clone(),
                created_by: m.created_by.clone(),
            },
        );
        j = j + 1;
        proof {
            assert(findings@ =~= f1 + dead@.take(j as int));
        }
    }
    proof {
        assert(dead@.take(dead@.len() as int) =~= dead@);
    }
    let ghost findings_spec = newest_first(discoveries@, 3) + newest_first(insights@, 2)
        + newest_first(deadends@, 2);
    proof {
        assert(findings@ =~= findings_spec);
    }
    let mut parts: Vec<Vec<char>> = Vec::new();
    if plans.len() > 0 {
        let last = &plans[plans.len() - 1];
        let mut b: Vec<char> = chars_of("=== Research Plan (by ");
        append_str(&mut b, last.created_by.as_str());
        append_str(&mut b, ") ===\n");
        append_str(&mut b, last.content.as_str());
        append_str(&mut b, "\n================================");
        parts.push(b);
    }
    if feedback.len() > 0 {
        let fb = take_newest(feedback, feedback.len());
        let mut b: Vec<char> = chars_of("=== Leader Feedback & Adjustments ===\n");
        append_chars(&mut b, &memory_lines(&fb, false));
        append_str(&mut b, "\n=====================================");
        parts.push(b);
    }
    if findings.len() > 0 {
        let mut b: Vec<char> = chars_of("=== Recent findings from other agents ===\n");
        append_chars(&mut b, &memory_lines(&findings, true));
        append_str(&mut b, "\n=========================================");
        parts.push(b);
    }
    let ghost pv = parts@.map_values(|v: Vec<char>| v@);
    proof {
        assert(pv =~= memory_blocks(plans@, feedback@, findings_spec));
    }
    if parts.len() == 0 {
        return None;
    }
    let mut out: Vec<char> = Vec::new();
    let mut i: usize = 0;
    proof {
        assert(pv.take(0) =~= Seq::<Seq<char>>::empty());
    }
    while i < parts.len()
        invariant
            i <= parts@.len(),
            pv == parts@.map_values(|v: Vec<char>| v@),
            out@ == blocks(pv.take(i as int)),
        decreases parts.len() - i,
    {
        let ghost prev = out@;
        if i > 0 {
            append_str(&mut out, "\n\n");
        }
        append_chars(&mut out, &parts[i]);
        proof {
            let t = pv.take(i + 1);
            assert(t.drop_last() =~= pv.take(i as int));
            assert(t.last() == parts@[i as int]@);
            if i == 0 {
                assert(t[0] == parts@[0]@);
            }
        }
        i = i + 1;
    }
    proof {
        assert(pv.take(pv.len() as int) =~= pv);
    }
    Some(string_of(&out))
}

} // verus!
