use vstd::prelude::*;
use crate::progress::Kind;
use crate::text::{
    utf8_len, utf8_len_exceeds,
    append_chars, fits_prefix, fitting_prefix_len, append_str, chars_eq, chars_of, contains, contains_chars, find_last, is_last_occurrence,
    lower_of, lowercase, slice_chars, starts_with, starts_with_chars, string_of, trim, trim_chars,
    upper_of, uppercase,
};

verus! {

/// Progress of a research session, as reported to whoever watches it.
#[derive(Clone, Debug)]
pub enum ResearchProgress {
    Started,
    Decomposing,
    PlanningIteration(usize, usize),
    PlanGenerated(usize),
    PlanCriticReviewing(usize, usize),
    PlanApproved,
    WorkersStarted(usize),
    WorkerCompleted(String),
    WorkerStarted { worker: String, question: String },
    WorkerStatus { worker: String, status: String },
    SupervisorAnalyzing,
    FollowUpQuestionsGenerated(usize),
    Combining,
    Summarizing,
    Refining(usize, usize),
    CriticReviewing,
    DebateRound(usize, usize),
    WritingDocument(usize, usize),
    DocumentReviewing,
    ExportingMemories,
    Completed,
}

/// A named agent: its role, prompt and the tools it may call.
#[derive(Clone, Debug)]
pub struct AgentRole {
    pub name: String,
    pub role: String,
    pub description: String,
    pub system_prompt: String,
    pub available_tools: Vec<String>,
}

/// The agents of a research session.
#[derive(Clone, Debug)]
pub struct Agents {
    pub lead: AgentRole,
    pub workers: Vec<AgentRole>,
    pub debate_agents: Vec<AgentRole>,
    pub refiner: AgentRole,
    pub writer: AgentRole,
    pub document_critic: AgentRole,
    pub plan_critic: AgentRole,
}

/// Bounds on the number of workers a plan may ask for.
#[derive(Clone, Debug)]
pub struct ResearchConfig {
    pub min_worker_count: usize,
    pub max_worker_count: usize,
}

impl Default for ResearchConfig {
    fn default() -> (r: Self)
        ensures
            r.min_worker_count == 3,
            r.max_worker_count == 10,
    {
        ResearchConfig { min_worker_count: 3, max_worker_count: 10 }
    }
}

/// The agents configuration file.
#[derive(Clone, Debug)]
pub struct AgentsConfig {
    pub agents: Agents,
    pub config: ResearchConfig,
}

/// One sub-question of a plan, with the name of the worker that answers it.
#[derive(Clone, Debug)]
pub struct SubQuestion {
    pub question: String,
    pub assigned_worker: String,
}

/// What a worker produced for its sub-question.
#[derive(Clone, Debug)]
pub struct WorkerResult {
    pub question: String,
    pub answer: String,
    pub worker_name: String,
}

/// One entry of the lead agent's JSON plan: a question and the worker role
/// it asks for.
#[derive(Clone, Debug)]
pub struct QuestionAssignment {
    pub question: String,
    pub worker: String,
}

/// Why a plan could not be used.
#[derive(Clone, Debug)]
pub enum PlanError {
    /// No worker has this role, nor a name that contains it.
    WorkerRoleNotFound(String),
}

/// Worker `i` is the one that `w` names: the first whose role is `w`, or, when
/// no role is `w`, the first whose lowercased name contains `w` lowercased.
pub open spec fn resolves_to(ws: Seq<AgentRole>, w: Seq<char>, i: int) -> bool {
    0 <= i < ws.len() && ((ws[i].role@ == w && forall|j: int| 0 <= j < i ==> ws[j].role@ != w)
        || ((forall|j: int| 0 <= j < ws.len() ==> ws[j].role@ != w) && contains(
        lower_of(ws[i].name@),
        lower_of(w),
    ) && forall|j: int| 0 <= j < i ==> !contains(lower_of(ws[j].name@), lower_of(w))))
}

/// Some configured worker has this name.
pub open spec fn names_a_worker(ws: Seq<AgentRole>, name: Seq<char>) -> bool {
    exists|i: int| 0 <= i < ws.len() && ws[i].name@ == name
}

pub open spec fn resolvable(ws: Seq<AgentRole>, w: Seq<char>) -> bool {
    exists|i: int| resolves_to(ws, w, i)
}

/// The index of the worker that `w` names, if any.
fn resolve_worker(workers: &Vec<AgentRole>, w: &String) -> (r: Option<usize>)
    ensures
        r matches Some(i) ==> resolves_to(workers@, w@, i as int),
        r is None ==> !resolvable(workers@, w@),
{
    let n = workers.len();
    let mut i: usize = 0;
    while i < n
        invariant
            n == workers@.len(),
            i <= n,
            forall|j: int| 0 <= j < i ==> workers@[j].role@ != w@,
        decreases n - i,
    {
        if workers[i].role == *w {
            return Some(i);
        }
        i = i + 1;
    }
    let wl = lowercase(w.as_str());
    let wlc = chars_of(wl.as_str());
    let mut k: usize = 0;
    while k < n
        invariant
            n == workers@.len(),
            k <= n,
            wlc@ == lower_of(w@),
            forall|j: int| 0 <= j < n ==> workers@[j].role@ != w@,
            forall|j: int| 0 <= j < k ==> !contains(lower_of(workers@[j].name@), lower_of(w@)),
        decreases n - k,
    {
        let nl = lowercase(workers[k].name.as_str());
        let nlc = chars_of(nl.as_str());
        if contains_chars(&nlc, &wlc) {
            return Some(k);
        }
        k = k + 1;
    }
    proof {
        assert forall|i: int| !resolves_to(workers@, w@, i) by {
            if 0 <= i < n {
                assert(workers@[i].role@ != w@);
            }
        }
    }
    None
}

/// Maps each assignment of a plan to a concrete worker: by exact role, else by
/// a case-insensitive match inside the worker's name. Fails on the first
/// assignment that names no worker.
pub fn assign_workers(assignments: &Vec<QuestionAssignment>, workers: &Vec<AgentRole>) -> (r:
    Result<Vec<SubQuestion>, PlanError>)
    ensures
        r is Ok <==> forall|k: int|
            0 <= k < assignments@.len() ==> resolvable(workers@, #[trigger] assignments@[k].worker@),
        r matches Ok(v) ==> {
            &&& v@.len() == assignments@.len()
            &&& forall|k: int|
                0 <= k < v@.len() ==> {
                    &&& (#[trigger] v@[k]).question@ == assignments@[k].question@
                    &&& exists|i: int|
                        resolves_to(workers@, assignments@[k].worker@, i)
                            && v@[k].assigned_worker@ == workers@[i].name@
                }
            &&& forall|k: int|
                0 <= k < v@.len() ==> names_a_worker(workers@, #[trigger] v@[k].assigned_worker@)
        },
        r matches Err(PlanError::WorkerRoleNotFound(w)) ==> exists|k: int|
            {
                &&& 0 <= k < assignments@.len()
                &&& w@ == assignments@[k].worker@
                &&& !resolvable(workers@, assignments@[k].worker@)
                &&& forall|j: int|
                    0 <= j < k ==> resolvable(workers@, #[trigger] assignments@[j].worker@)
            },
{
    let mut v: Vec<SubQuestion> = Vec::new();
    let mut k: usize = 0;
    while k < assignments.len()
        invariant
            k <= assignments@.len(),
            v@.len() == k,
            forall|j: int| 0 <= j < k ==> resolvable(workers@, #[trigger] assignments@[j].worker@),
            forall|j: int|
                0 <= j < k ==> {
                    &&& (#[trigger] v@[j]).question@ == assignments@[j].question@
                    &&& exists|i: int|
                        resolves_to(workers@, assignments@[j].worker@, i)
                            && v@[j].assigned_worker@ == workers@[i].name@
                },
            forall|j: int|
                0 <= j < k ==> names_a_worker(workers@, #[trigger] v@[j].assigned_worker@),
        decreases assignments.len() - k,
    {
        match resolve_worker(workers, &assignments[k].worker) {
            Some(i) => {
                let sq = SubQuestion {
                    question: assignments[k].question.clone(),
                    assigned_worker: workers[i].name.clone(),
                };
                let ghost prev = v@;
                v.push(sq);
                proof {
                    assert(v@[k as int].assigned_worker@ == workers@[i as int].name@);
                    assert forall|j: int| 0 <= j < k + 1 implies names_a_worker(
                        workers@,
                        #[trigger] v@[j].assigned_worker@,
                    ) by {
                        if j < k {
                            assert(v@[j] == prev[j]);
                        } else {
                            assert(workers@[i as int].name@ == v@[j].assigned_worker@);
                        }
                    }
                    assert(resolves_to(workers@, assignments@[k as int].worker@, i as int));
                }
            },
            None => {
                return Err(PlanError::WorkerRoleNotFound(assignments[k].worker.clone()));
            },
        }
        k = k + 1;
    }
    Ok(v)
}

/// The strategy paragraph of a plan: what follows the last `]`, trimmed, or
/// the whole reply trimmed when it has no `]`.
pub open spec fn plan_strategy_spec(t: Seq<char>) -> Seq<char> {
    if exists|b: int| is_last_occurrence(t, seq![']'], b) {
        let b = choose|b: int| is_last_occurrence(t, seq![']'], b);
        trim(t.subrange(b + 1, t.len() as int))
    } else {
        trim(t)
    }
}

/// Takes the strategy paragraph out of the lead agent's reply.
pub fn plan_strategy(plan_text: &str) -> (r: String)
    ensures
        r@ == plan_strategy_spec(plan_text@),
{
    let t = chars_of(plan_text);
    let close = vec![']'];
    proof {
        assert(close@ =~= seq![']']);
    }
    match find_last(&t, &close) {
        Some(b) => {
            let n = t.len();
            proof {
                let c = choose|x: int| is_last_occurrence(t@, seq![']'], x);
                assert(is_last_occurrence(t@, seq![']'], c));
                assert(c == b);
            }
            let rest = slice_chars(&t, b + 1, n);
            string_of(&trim_chars(&rest))
        },
        None => string_of(&trim_chars(&t)),
    }
}

/// The text trimmed and in upper case.
fn upper_trimmed(s: &str) -> (r: Vec<char>)
    ensures
        r@ == upper_of(trim(s@)),
{
    let c = chars_of(s);
    let t = string_of(&trim_chars(&c));
    let u = uppercase(t.as_str());
    chars_of(u.as_str())
}

/// The plan critic approves when its reply, trimmed and in upper case, begins
/// with `APPROVED`.
pub fn is_plan_approved(reply: &str) -> (r: bool)
    ensures
        r == starts_with(upper_of(trim(reply@)), "APPROVED"@),
{
    let u = upper_trimmed(reply);
    let a = chars_of("APPROVED");
    starts_with_chars(&u, &a)
}

/// The debate approves when its verdict, in upper case, holds `APPROVED`.
pub fn is_debate_approved(verdict: &str) -> (r: bool)
    ensures
        r == contains(upper_of(trim(verdict@)), "APPROVED"@),
{
    let u = upper_trimmed(verdict);
    let a = chars_of("APPROVED");
    contains_chars(&u, &a)
}

/// The document critic approves when its reply, trimmed and in upper case,
/// is exactly `APPROVED`.
pub fn is_document_approved(reply: &str) -> (r: bool)
    ensures
        r == (upper_of(trim(reply@)) == "APPROVED"@),
{
    let u = upper_trimmed(reply);
    let a = chars_of("APPROVED");
    chars_eq(&u, &a)
}

/// What the session answers when the plan holds no sub-question.
pub fn no_plan_answer() -> (r: String)
    ensures
        r@ == "Unable to decompose query into sub-questions."@,
{
    "Unable to decompose query into sub-questions.".to_owned()
}

/// The answer that ends a session before any worker runs: only when the plan
/// holds no sub-question.
pub fn plan_outcome(sub_questions: &Vec<SubQuestion>) -> (r: Option<String>)
    ensures
        sub_questions@.len() == 0 <==> r is Some,
        r matches Some(s) ==> s@ == "Unable to decompose query into sub-questions."@,
{
    if sub_questions.len() == 0 {
        Some(no_plan_answer())
    } else {
        None
    }
}

/// The opening line of the combined research text.
pub open spec fn results_header(query: Seq<char>) -> Seq<char> {
    "# Research Results for: "@ + query + "\n\n"@
}

/// The section that one worker's (possibly condensed) answer takes.
pub open spec fn worker_section(r: WorkerResult, answer: Seq<char>) -> Seq<char> {
    "## "@ + r.worker_name@ + "\n**Question:** "@ + r.question@ + "\n\n"@ + answer + "\n\n"@
}

/// The combined research text for `results`, whose answers, after any
/// condensing, are `answers`.
pub open spec fn combined_text(
    query: Seq<char>,
    results: Seq<WorkerResult>,
    answers: Seq<String>,
) -> Seq<char>
    decreases results.len(),
{
    if results.len() == 0 {
        results_header(query)
    } else {
        combined_text(query, results.drop_last(), answers) + worker_section(
            results.last(),
            answers[results.len() - 1]@,
        )
    }
}

/// Combines worker results, in order, into one text with a section each;
/// `answers[i]` is the answer of `results[i]` after any condensing.
pub fn combine_results(query: &str, results: &Vec<WorkerResult>, answers: &Vec<String>) -> (r:
    String)
    requires
        results@.len() == answers@.len(),
    ensures
        r@ == combined_text(query@, results@, answers@),
{
    let mut out: Vec<char> = Vec::new();
    append_str(&mut out, "# Research Results for: ");
    append_str(&mut out, query);
    append_str(&mut out, "\n\n");
    let mut i: usize = 0;
    proof {
        assert(results@.take(0) =~= Seq::<WorkerResult>::empty());
        assert(out@ =~= combined_text(query@, results@.take(0), answers@));
    }
    while i < results.len()
        invariant
            i <= results@.len() == answers@.len(),
            out@ == combined_text(query@, results@.take(i as int), answers@),
        decreases results.len() - i,
    {
        let ghost before = out@;
        append_str(&mut out, "## ");
        append_str(&mut out, results[i].worker_name.as_str());
        append_str(&mut out, "\n**Question:** ");
        append_str(&mut out, results[i].question.as_str());
        append_str(&mut out, "\n\n");
        append_str(&mut out, answers[i].as_str());
        append_str(&mut out, "\n\n");
        proof {
            let t = results@.take(i + 1);
            assert(t.drop_last() =~= results@.take(i as int));
            assert(t.last() == results@[i as int]);
            assert(out@ =~= before + worker_section(results@[i as int], answers@[i as int]@));
        }
        i = i + 1;
    }
    proof {
        assert(results@.take(results@.len() as int) =~= results@);
    }
    string_of(&out)
}

/// Whether an answer is over the byte budget and must be condensed.
pub fn needs_summary(answer: &str, threshold: usize) -> (r: bool)
    ensures
        r == (utf8_len(answer@) > threshold),
{
    utf8_len_exceeds(answer, threshold)
}

/// The notice that ends a text cut to fit a budget.
pub open spec fn truncation_notice() -> Seq<char> {
    "...\n\n[Note: Content truncated due to length]"@
}

/// A text cut to its longest prefix that fits in `max_bytes` bytes, followed
/// by a notice that it was cut: the fallback when condensing fails.
pub fn truncate_with_notice(text: &str, max_bytes: usize) -> (r: String)
    ensures
        exists|k: int|
            fits_prefix(text@, max_bytes as nat, k) && r@ == text@.take(k) + truncation_notice(),
{
    let t = chars_of(text);
    let k = fitting_prefix_len(&t, max_bytes);
    let mut out = slice_chars(&t, 0, k);
    append_str(&mut out, "...\n\n[Note: Content truncated due to length]");
    proof {
        assert(t@.subrange(0, k as int) =~= text@.take(k as int));
    }
    string_of(&out)
}

/// How many gap-filling workers the supervisor may add: at most three, and
/// never past the worker maximum.
pub open spec fn gap_budget(initial: int, max: int) -> int {
    if max <= initial {
        0
    } else if max - initial < 3 {
        max - initial
    } else {
        3
    }
}

/// How many gap-filling workers may be added to `initial_worker_count`
/// under `max_worker_count`.
pub fn gap_worker_budget(initial_worker_count: usize, max_worker_count: usize) -> (r: usize)
    ensures
        r == gap_budget(initial_worker_count as int, max_worker_count as int),
{
    if max_worker_count <= initial_worker_count {
        0
    } else if max_worker_count - initial_worker_count < 3 {
        max_worker_count - initial_worker_count
    } else {
        3
    }
}

/// Whether the supervisor asks for gap-filling workers now: once the
/// midpoint is reached, while room is left, and only if it has not asked yet.
pub fn should_request_gaps(
    completed: usize,
    midpoint_threshold: usize,
    initial_worker_count: usize,
    max_worker_count: usize,
    already_requested: bool,
) -> (r: bool)
    ensures
        r == (!already_requested && completed >= midpoint_threshold && initial_worker_count
            < max_worker_count),
{
    !already_requested && completed >= midpoint_threshold && initial_worker_count < max_worker_count
}

/// The worker population while results come in.
#[derive(Clone, Copy, Debug)]
pub struct WorkerDispatch {
    pub initial_count: usize,
    pub active_workers: usize,
    pub completed: usize,
    pub gap_injected: bool,
    pub follow_ups_started: bool,
}

/// How many plan-and-critique rounds the lead agent gets.
pub const MAX_PLAN_ITERATIONS: usize = 3;

/// After this many results, follow-up questions are generated.
pub const EARLY_RESULTS_THRESHOLD: usize = 2;

/// At most this many follow-up workers are started.
pub const MAX_FOLLOW_UPS: usize = 4;

/// What a gap request with `n` questions does to the population: the first
/// request spawns up to the gap budget; any later one spawns nothing.
pub open spec fn gap_step(d: WorkerDispatch, n: int, max: int) -> (WorkerDispatch, int) {
    if d.gap_injected {
        (d, 0)
    } else {
        let b = gap_budget(d.initial_count as int, max);
        let k = if n < b {
            n
        } else {
            b
        };
        (
            WorkerDispatch {
                active_workers: (d.active_workers + k) as usize,
                gap_injected: true,
                ..d
            },
            k,
        )
    }
}

impl WorkerDispatch {
    /// The population when the initial workers start.
    pub fn new(initial_count: usize) -> (r: WorkerDispatch)
        ensures
            r.initial_count == initial_count,
            r.active_workers == initial_count,
            r.completed == 0,
            !r.gap_injected,
            !r.follow_ups_started,
    {
        WorkerDispatch {
            initial_count,
            active_workers: initial_count,
            completed: 0,
            gap_injected: false,
            follow_ups_started: false,
        }
    }

    /// Takes a gap request with `n_questions` questions and returns how many
    /// workers to spawn for it.
    pub fn on_gap_request(&mut self, n_questions: usize, max_worker_count: usize) -> (r: usize)
        requires
            old(self).active_workers + 3 <= usize::MAX,
        ensures
            (*final(self), r as int) == gap_step(*old(self), n_questions as int, max_worker_count as int),
    {
        if self.gap_injected {
            return 0;
        }
        let b = gap_worker_budget(self.initial_count, max_worker_count);
        let k = if n_questions < b {
            n_questions
        } else {
            b
        };
        self.active_workers = self.active_workers + k;
        self.gap_injected = true;
        k
    }

    /// Takes one finished worker's result; says whether follow-up questions
    /// are to be generated now, which happens once, when the early results
    /// are in.
    pub fn on_worker_result(&mut self) -> (r: bool)
        requires
            old(self).active_workers > 0,
            old(self).completed < usize::MAX,
        ensures
            final(self).active_workers == old(self).active_workers - 1,
            final(self).completed == old(self).completed + 1,
            final(self).initial_count == old(self).initial_count,
            final(self).gap_injected == old(self).gap_injected,
            r == (!old(self).follow_ups_started && final(self).completed == EARLY_RESULTS_THRESHOLD),
            final(self).follow_ups_started == (old(self).follow_ups_started || r),
    {
        self.active_workers = self.active_workers - 1;
        self.completed = self.completed + 1;
        if !self.follow_ups_started && self.completed == EARLY_RESULTS_THRESHOLD {
            self.follow_ups_started = true;
            true
        } else {
            false
        }
    }

    /// Takes follow-up questions and returns how many workers to start for
    /// them: at most `MAX_FOLLOW_UPS`. They report on the same channel, so
    /// they count as active; they do not use the supervisor's gap slot.
    pub fn on_follow_ups(&mut self, n_questions: usize) -> (r: usize)
        requires
            old(self).active_workers + MAX_FOLLOW_UPS <= usize::MAX,
        ensures
            r == (if n_questions < MAX_FOLLOW_UPS {
                n_questions
            } else {
                MAX_FOLLOW_UPS
            }),
            final(self).active_workers == old(self).active_workers + r,
            final(self).completed == old(self).completed,
            final(self).initial_count == old(self).initial_count,
            final(self).gap_injected == old(self).gap_injected,
            final(self).follow_ups_started == old(self).follow_ups_started,
    {
        let k = if n_questions < MAX_FOLLOW_UPS {
            n_questions
        } else {
            MAX_FOLLOW_UPS
        };
        self.active_workers = self.active_workers + k;
        k
    }

    /// Whether every worker has reported.
    pub fn is_done(&self) -> (r: bool)
        ensures
            r == (self.active_workers == 0),
    {
        self.active_workers == 0
    }
}

/// Gap injection happens at most once a session: after one gap request, a
/// second one spawns no worker, whatever it holds.
pub proof fn lemma_gap_injection_once(d: WorkerDispatch, n1: int, n2: int, max: int)
    ensures
        gap_step(gap_step(d, n1, max).0, n2, max).1 == 0,
        gap_step(d, n1, max).1 <= 3,
{
}

/// The progress note stored after each worker result.
pub fn progress_note(completed: usize, total_initial: usize) -> (r: String)
    ensures
        r@ == "Workers completed: "@ + crate::status::decimal_of(completed as nat) + "/"@
            + crate::status::decimal_of(total_initial as nat),
{
    let mut out: Vec<char> = chars_of("Workers completed: ");
    append_chars(&mut out, &crate::status::decimal_chars(completed));
    append_str(&mut out, "/");
    append_chars(&mut out, &crate::status::decimal_chars(total_initial));
    string_of(&out)
}

/// The answer recorded for a worker that failed: the session goes on.
pub fn worker_error_answer(error: &str) -> (r: String)
    ensures
        r@ == "Error: "@ + error@,
{
    let mut out: Vec<char> = chars_of("Error: ");
    append_str(&mut out, error);
    string_of(&out)
}

/// One line of the stored plan: its number, worker and question.
pub open spec fn plan_line(i: nat, q: SubQuestion) -> Seq<char> {
    crate::status::decimal_of(i) + ". ["@ + q.assigned_worker@ + "] "@ + q.question@
}

pub open spec fn plan_lines(qs: Seq<SubQuestion>) -> Seq<char>
    decreases qs.len(),
{
    if qs.len() == 0 {
        Seq::empty()
    } else if qs.len() == 1 {
        plan_line(1, qs[0])
    } else {
        plan_lines(qs.drop_last()) + "\n"@ + plan_line(qs.len(), qs.last())
    }
}

/// The text of the plan stored in shared memory.
pub fn plan_memory_content(query: &str, sub_questions: &Vec<SubQuestion>, strategy: &str) -> (r:
    String)
    ensures
        r@ == "Research Plan for: "@ + query@ + "\n\nSub-questions:\n"@ + plan_lines(sub_questions@)
            + "\n\nStrategy:\n"@ + strategy@,
{
    let mut out: Vec<char> = chars_of("Research Plan for: ");
    append_str(&mut out, query);
    append_str(&mut out, "\n\nSub-questions:\n");
    let ghost head = out@;
    let mut i: usize = 0;
    proof {
        assert(sub_questions@.take(0) =~= Seq::<SubQuestion>::empty());
        assert(out@ =~= head + plan_lines(sub_questions@.take(0)));
    }
    while i < sub_questions.len()
        invariant
            i <= sub_questions@.len(),
            out@ == head + plan_lines(sub_questions@.take(i as int)),
        decreases sub_questions.len() - i,
    {
        let ghost prev = out@;
        if i > 0 {
            append_str(&mut out, "\n");
        }
        append_chars(&mut out, &crate::status::decimal_chars(i + 1));
        append_str(&mut out, ". [");
        append_str(&mut out, sub_questions[i].assigned_worker.as_str());
        append_str(&mut out, "] ");
        append_str(&mut out, sub_questions[i].question.as_str());
        proof {
            let t = sub_questions@.take(i + 1);
            assert(t.drop_last() =~= sub_questions@.take(i as int));
            assert(t.last() == sub_questions@[i as int]);
            if i == 0 {
                assert(t[0] == sub_questions@[0]);
                assert(out@ =~= head + plan_line(1, sub_questions@[0]));
            } else {
                assert(out@ =~= prev + "\n"@ + plan_line((i + 1) as nat, sub_questions@[i as int]));
            }
        }
        i = i + 1;
    }
    proof {
        assert(sub_questions@.take(sub_questions@.len() as int) =~= sub_questions@);
    }
    append_str(&mut out, "\n\nStrategy:\n");
    append_str(&mut out, strategy);
    string_of(&out)
}

/// The words of a text: its maximal runs of non-whitespace characters.
pub open spec fn words(s: Seq<char>) -> Seq<Seq<char>>
    decreases s.len(),
{
    if s.len() == 0 {
        Seq::empty()
    } else {
        let w = words(s.drop_last());
        let c = s.last();
        if crate::text::is_ws(c) {
            w
        } else if s.len() > 1 && !crate::text::is_ws(s[s.len() - 2]) && w.len() > 0 {
            w.update(w.len() - 1, w.last().push(c))
        } else {
            w.push(seq![c])
        }
    }
}

/// Words joined by single spaces.
pub open spec fn spaced(ws: Seq<Seq<char>>) -> Seq<char>
    decreases ws.len(),
{
    if ws.len() == 0 {
        Seq::empty()
    } else if ws.len() == 1 {
        ws[0]
    } else {
        spaced(ws.drop_last()) + seq![' '] + ws.last()
    }
}

/// A short one-line form of a long text for progress lines: whitespace
/// runs become single spaces, and a text over `max` bytes is cut to
/// `max - 1` characters and an ellipsis.
pub open spec fn summarize_arg_spec(text: Seq<char>, max: nat) -> Seq<char> {
    let c = spaced(words(text));
    if crate::text::utf8_len(c) <= max {
        c
    } else {
        let n = if max >= 1 {
            max - 1
        } else {
            0
        };
        c.take(if n < c.len() {
            n as int
        } else {
            c.len() as int
        }).push('\u{2026}')
    }
}

proof fn lemma_words_nonempty(s: Seq<char>)
    ensures
        forall|i: int| 0 <= i < words(s).len() ==> (#[trigger] words(s)[i]).len() > 0,
        s.len() > 0 && !crate::text::is_ws(s.last()) ==> words(s).len() > 0,
    decreases s.len(),
{
    if s.len() > 0 {
        lemma_words_nonempty(s.drop_last());
        let w = words(s.drop_last());
        let c = s.last();
        let r = words(s);
        assert forall|i: int| 0 <= i < r.len() implies (#[trigger] r[i]).len() > 0 by {
            if crate::text::is_ws(c) {
                assert(r[i] == w[i]);
            } else if s.len() > 1 && !crate::text::is_ws(s[s.len() - 2]) && w.len() > 0 {
                if i < w.len() - 1 {
                    assert(r[i] == w[i]);
                } else {
                    assert(r[i] == w.last().push(c));
                }
            } else {
                if i < w.len() {
                    assert(r[i] == w[i]);
                }
            }
        }
    }
}

fn collapse_whitespace(t: &Vec<char>) -> (r: Vec<char>)
    ensures
        r@ == spaced(words(t@)),
{
    let mut out: Vec<char> = Vec::new();
    let mut k: usize = 0;
    proof {
        assert(t@.take(0) =~= Seq::<char>::empty());
    }
    while k < t.len()
        invariant
            k <= t@.len(),
            out@ == spaced(words(t@.take(k as int))),
            out@.len() > 0 <==> words(t@.take(k as int)).len() > 0,
        decreases t.len() - k,
    {
        let c = t[k];
        let ghost pre = t@.take(k as int);
        let ghost w = words(pre);
        proof {
            let u = t@.take(k + 1);
            assert(u.drop_last() =~= pre);
            assert(u.last() == c);
            if k > 0 {
                assert(u[u.len() - 2] == t@[k - 1]);
            }
            lemma_words_nonempty(pre);
        }
        if crate::text::char_is_ws(c) {
        } else if k > 0 && !crate::text::char_is_ws(t[k - 1]) && out.len() > 0 {
            out.push(c);
            proof {
                let w2 = w.update(w.len() - 1, w.last().push(c));
                if w.len() == 1 {
                    assert(w2[0] =~= w[0].push(c));
                } else {
                    assert(w2.drop_last() =~= w.drop_last());
                }
                assert(out@ =~= spaced(w2));
            }
        } else {
            proof {
                if k > 0 && !crate::text::is_ws(t@[k - 1]) {
                    assert(pre.last() == t@[k - 1]);
                    lemma_words_nonempty(pre);
                }
            }
            if out.len() > 0 {
                out.push(' ');
            }
            out.push(c);
            proof {
                let w2 = w.push(seq![c]);
                assert(w2.drop_last() =~= w);
                assert(out@ =~= spaced(w2));
            }
        }
        k = k + 1;
    }
    proof {
        assert(t@.take(t@.len() as int) =~= t@);
    }
    out
}

/// Shortens a text to one line of at most about `max` bytes, for progress lines.
pub fn summarize_arg(text: &str, max: usize) -> (r: String)
    ensures
        r@ == summarize_arg_spec(text@, max as nat),
{
    let c = collapse_whitespace(&chars_of(text));
    let s = string_of(&c);
    if !utf8_len_exceeds(s.as_str(), max) {
        return s;
    }
    let n = if max >= 1 {
        max - 1
    } else {
        0
    };
    let k = if n < c.len() {
        n
    } else {
        c.len()
    };
    let mut out = slice_chars(&c, 0, k);
    out.push('\u{2026}');
    proof {
        assert(c@.subrange(0, k as int) =~= c@.take(k as int));
    }
    string_of(&out)
}

/// `prefix` followed by `i/max` and `suffix`.
pub open spec fn fraction_line(prefix: Seq<char>, i: usize, max: usize, suffix: Seq<char>) -> Seq<char> {
    prefix + crate::status::decimal_of(i as nat) + "/"@ + crate::status::decimal_of(max as nat) + suffix
}

fn fraction_exec(prefix: &str, i: usize, max: usize, suffix: &str) -> (r: String)
    ensures
        r@ == fraction_line(prefix@, i, max, suffix@),
{
    let mut out: Vec<char> = chars_of(prefix);
    append_chars(&mut out, &crate::status::decimal_chars(i));
    append_str(&mut out, "/");
    append_chars(&mut out, &crate::status::decimal_chars(max));
    append_str(&mut out, suffix);
    proof {
        assert(out@ =~= fraction_line(prefix@, i, max, suffix@));
    }
    string_of(&out)
}

/// The log kind of a worker status line, by the name it reports under.
pub open spec fn status_kind(worker: Seq<char>) -> crate::progress::Kind {
    if worker == "Debate"@ {
        crate::progress::Kind::Debate
    } else if worker == "Refiner"@ {
        crate::progress::Kind::Refiner
    } else if worker == "Writer"@ {
        crate::progress::Kind::Writer
    } else if worker == "DocumentCritic"@ {
        crate::progress::Kind::DocumentCritic
    } else if worker == "Combiner"@ {
        crate::progress::Kind::Combiner
    } else {
        crate::progress::Kind::Worker
    }
}

/// The progress-log line, and its kind, of a progress event.
pub open spec fn progress_line_spec(p: ResearchProgress) -> (Seq<char>, crate::progress::Kind) {
    match p {
        ResearchProgress::Started => ("Research started"@, crate::progress::Kind::Info),
        ResearchProgress::Decomposing => (
            "Decomposing query into sub-questions"@,
            crate::progress::Kind::Info,
        ),
        ResearchProgress::PlanningIteration(i, m) => (
            fraction_line("Planning iteration "@, i, m, ""@),
            crate::progress::Kind::Info,
        ),
        ResearchProgress::PlanGenerated(n) => (
            "Generated plan with "@ + crate::status::decimal_of(n as nat) + " sub-questions"@,
            crate::progress::Kind::Info,
        ),
        ResearchProgress::PlanCriticReviewing(i, m) => (
            fraction_line("Plan critic reviewing (iteration "@, i, m, ")"@),
            crate::progress::Kind::Debate,
        ),
        ResearchProgress::PlanApproved => (
            "Plan approved, starting research"@,
            crate::progress::Kind::Info,
        ),
        ResearchProgress::WorkersStarted(n) => (
            "Dispatching "@ + crate::status::decimal_of(n as nat) + " workers"@,
            crate::progress::Kind::Worker,
        ),
        ResearchProgress::WorkerCompleted(name) => (
            "\u{2713} Worker completed: "@ + name@,
            crate::progress::Kind::Worker,
        ),
        ResearchProgress::WorkerStarted { worker, question } => (
            "\u{2192} "@ + worker@ + " researching: "@ + question@,
            crate::progress::Kind::Worker,
        ),
        ResearchProgress::WorkerStatus { worker, status } => (
            worker@ + ": "@ + status@,
            status_kind(worker@),
        ),
        ResearchProgress::SupervisorAnalyzing => (
            "Supervisor analyzing progress"@,
            crate::progress::Kind::Info,
        ),
        ResearchProgress::FollowUpQuestionsGenerated(n) => (
            "Generated "@ + crate::status::decimal_of(n as nat) + " follow-up questions"@,
            crate::progress::Kind::Worker,
        ),
        ResearchProgress::Combining => ("Combining results"@, crate::progress::Kind::Combiner),
        ResearchProgress::Summarizing => (
            "Summarizing worker results"@,
            crate::progress::Kind::Combiner,
        ),
        ResearchProgress::Refining(i, m) => (
            fraction_line("Refining output (iteration "@, i, m, ")"@),
            crate::progress::Kind::Refiner,
        ),
        ResearchProgress::CriticReviewing => (
            "Critic reviewing output"@,
            crate::progress::Kind::Debate,
        ),
        ResearchProgress::DebateRound(i, m) => (
            fraction_line("Debate round "@, i, m, ""@),
            crate::progress::Kind::Debate,
        ),
        ResearchProgress::WritingDocument(i, m) => (
            fraction_line("Writing document (iteration "@, i, m, ")"@),
            crate::progress::Kind::Writer,
        ),
        ResearchProgress::DocumentReviewing => (
            "Document critic reviewing"@,
            crate::progress::Kind::DocumentCritic,
        ),
        ResearchProgress::ExportingMemories => (
            "Exporting research memories"@,
            crate::progress::Kind::Info,
        ),
        ResearchProgress::Completed => ("Research complete"@, crate::progress::Kind::Info),
    }
}

fn join3(a: &str, b: &str, c: &str) -> (r: String)
    ensures
        r@ == a@ + b@ + c@,
{
    let mut out: Vec<char> = chars_of(a);
    append_str(&mut out, b);
    append_str(&mut out, c);
    proof {
        assert(out@ =~= a@ + b@ + c@);
    }
    string_of(&out)
}

fn number_line(a: &str, n: usize, c: &str) -> (r: String)
    ensures
        r@ == a@ + crate::status::decimal_of(n as nat) + c@,
{
    let mut out: Vec<char> = chars_of(a);
    append_chars(&mut out, &crate::status::decimal_chars(n));
    append_str(&mut out, c);
    proof {
        assert(out@ =~= a@ + crate::status::decimal_of(n as nat) + c@);
    }
    string_of(&out)
}

/// The line and kind that a progress event puts in the progress log.
pub fn progress_line(p: &ResearchProgress) -> (r: (String, crate::progress::Kind))
    ensures
        (r.0@, r.1) == progress_line_spec(*p),
{
    match p {
        ResearchProgress::Started => ("Research started".to_owned(), Kind::Info),
        ResearchProgress::Decomposing => (
            "Decomposing query into sub-questions".to_owned(),
            Kind::Info,
        ),
        ResearchProgress::PlanningIteration(i, m) => (
            fraction_exec("Planning iteration ", *i, *m, ""),
            Kind::Info,
        ),
        ResearchProgress::PlanGenerated(n) => (
            number_line("Generated plan with ", *n, " sub-questions"),
            Kind::Info,
        ),
        ResearchProgress::PlanCriticReviewing(i, m) => (
            fraction_exec("Plan critic reviewing (iteration ", *i, *m, ")"),
            Kind::Debate,
        ),
        ResearchProgress::PlanApproved => ("Plan approved, starting research".to_owned(), Kind::Info),
        ResearchProgress::WorkersStarted(n) => (
            number_line("Dispatching ", *n, " workers"),
            Kind::Worker,
        ),
        ResearchProgress::WorkerCompleted(name) => {
            let mut out: Vec<char> = chars_of("\u{2713} Worker completed: ");
            append_str(&mut out, name.as_str());
            (string_of(&out), Kind::Worker)
        },
        ResearchProgress::WorkerStarted { worker, question } => {
            let mut out: Vec<char> = chars_of("\u{2192} ");
            append_str(&mut out, worker.as_str());
            append_str(&mut out, " researching: ");
            append_str(&mut out, question.as_str());
            proof {
                assert(out@ =~= "\u{2192} "@ + worker@ + " researching: "@ + question@);
            }
            (string_of(&out), Kind::Worker)
        },
        ResearchProgress::WorkerStatus { worker, status } => {
            let w = chars_of(worker.as_str());
            let kind = if chars_eq(&w, &chars_of("Debate")) {
                Kind::Debate
            } else if chars_eq(&w, &chars_of("Refiner")) {
                Kind::Refiner
            } else if chars_eq(&w, &chars_of("Writer")) {
                Kind::Writer
            } else if chars_eq(&w, &chars_of("DocumentCritic")) {
                Kind::DocumentCritic
            } else if chars_eq(&w, &chars_of("Combiner")) {
                Kind::Combiner
            } else {
                Kind::Worker
            };
            (join3(worker.as_str(), ": ", status.as_str()), kind)
        },
        ResearchProgress::SupervisorAnalyzing => (
            "Supervisor analyzing progress".to_owned(),
            Kind::Info,
        ),
        ResearchProgress::FollowUpQuestionsGenerated(n) => (
            number_line("Generated ", *n, " follow-up questions"),
            Kind::Worker,
        ),
        ResearchProgress::Combining => ("Combining results".to_owned(), Kind::Combiner),
        ResearchProgress::Summarizing => ("Summarizing worker results".to_owned(), Kind::Combiner),
        ResearchProgress::Refining(i, m) => (
            fraction_exec("Refining output (iteration ", *i, *m, ")"),
            Kind::Refiner,
        ),
        ResearchProgress::CriticReviewing => ("Critic reviewing output".to_owned(), Kind::Debate),
        ResearchProgress::DebateRound(i, m) => (
            fraction_exec("Debate round ", *i, *m, ""),
            Kind::Debate,
        ),
        ResearchProgress::WritingDocument(i, m) => (
            fraction_exec("Writing document (iteration ", *i, *m, ")"),
            Kind::Writer,
        ),
        ResearchProgress::DocumentReviewing => (
            "Document critic reviewing".to_owned(),
            Kind::DocumentCritic,
        ),
        ResearchProgress::ExportingMemories => (
            "Exporting research memories".to_owned(),
            Kind::Info,
        ),
        ResearchProgress::Completed => ("Research complete".to_owned(), Kind::Info),
    }
}

/// Each gap request the supervisor sends holds at most three questions, and
/// never more than the room left under the worker maximum.
pub proof fn lemma_gap_budget_bounds(initial: int, max: int)
    ensures
        0 <= gap_budget(initial, max) <= 3,
        max > initial ==> gap_budget(initial, max) <= max - initial,
        max <= initial ==> gap_budget(initial, max) == 0,
{
}

/// Every sub-question of a plan goes to a worker of the configuration.
pub proof fn lemma_assigned_worker_is_configured(ws: Seq<AgentRole>, w: Seq<char>, i: int)
    requires
        resolves_to(ws, w, i),
    ensures
        0 <= i < ws.len(),
        ws[i].role@ == w || contains(lower_of(ws[i].name@), lower_of(w)),
{
}

} // verus!
