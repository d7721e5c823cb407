use vstd::prelude::*;
use crate::research::{is_debate_approved, is_document_approved, AgentRole};
use crate::status::{decimal_chars, decimal_of};
use crate::text::{append_chars, append_str, chars_of, contains, string_of, trim, upper_of};

verus! {

/// The three voices of a debate.
#[derive(PartialEq, Eq, Structural, Clone, Copy, Debug)]
pub enum DebateRole {
    Advocate,
    Skeptic,
    Synthesizer,
}

pub open spec fn role_tag(r: DebateRole) -> Seq<char> {
    match r {
        DebateRole::Advocate => "advocate"@,
        DebateRole::Skeptic => "skeptic"@,
        DebateRole::Synthesizer => "synthesizer"@,
    }
}

/// The first debate agent whose role is `role`.
pub fn find_debate_agent(agents: &Vec<AgentRole>, role: DebateRole) -> (r: Option<usize>)
    ensures
        r matches Some(i) ==> i < agents@.len() && agents@[i as int].role@ == role_tag(role)
            && forall|j: int| 0 <= j < i ==> agents@[j].role@ != role_tag(role),
        r is None ==> forall|j: int| 0 <= j < agents@.len() ==> agents@[j].role@ != role_tag(role),
{
    let tag: String = match role {
        DebateRole::Advocate => "advocate".to_owned(),
        DebateRole::Skeptic => "skeptic".to_owned(),
        DebateRole::Synthesizer => "synthesizer".to_owned(),
    };
    let mut i: usize = 0;
    while i < agents.len()
        invariant
            i <= agents@.len(),
            tag@ == role_tag(role),
            forall|j: int| 0 <= j < i ==> agents@[j].role@ != role_tag(role),
        decreases agents.len() - i,
    {
        if agents[i].role == tag {
            return Some(i);
        }
        i = i + 1;
    }
    None
}

/// Who speaks at turn `t` of a debate of `rounds` rounds: advocate and
/// skeptic in turn, then the synthesizer; nobody after that.
pub open spec fn speaker_at(t: nat, rounds: nat) -> Option<DebateRole> {
    if t < 2 * rounds {
        if t % 2 == 0 {
            Some(DebateRole::Advocate)
        } else {
            Some(DebateRole::Skeptic)
        }
    } else if t == 2 * rounds {
        Some(DebateRole::Synthesizer)
    } else {
        None
    }
}

/// A debate over one research output, turn by turn.
pub struct Debate {
    pub output: String,
    pub max_rounds: usize,
    pub turn: usize,
    pub history: String,
    pub last_advocate: String,
    pub last_skeptic: String,
}

/// The history after the advocate speaks in round `round`.
pub open spec fn history_after_advocate(h: Seq<char>, round: nat, arg: Seq<char>) -> Seq<char> {
    h + "\n--- Round "@ + decimal_of(round) + " ---\n"@ + "**Advocate:**\n"@ + arg + "\n\n"@
}

/// The history after the skeptic speaks.
pub open spec fn history_after_skeptic(h: Seq<char>, arg: Seq<char>) -> Seq<char> {
    h + "**Skeptic:**\n"@ + arg + "\n\n"@
}

/// The prompt of the speaker at the current turn.
pub open spec fn debate_prompt_spec(d: Debate, system_prompt: Seq<char>) -> Seq<char> {
    let round = d.turn / 2 + 1;
    match speaker_at(d.turn as nat, d.max_rounds as nat) {
        Some(DebateRole::Advocate) => if round == 1 {
            system_prompt + "\n\nResearch Output to Defend:\n"@ + d.output@
        } else {
            system_prompt + "\n\nResearch Output:\n"@ + d.output@ + "\n\nDebate History:\n"@
                + d.history@ + "\n\nSkeptic's Last Critique:\n"@ + d.last_skeptic@
                + "\n\nProvide your rebuttal:"@
        },
        Some(DebateRole::Skeptic) => if round == 1 {
            system_prompt + "\n\nResearch Output:\n"@ + d.output@ + "\n\nAdvocate's Defense:\n"@
                + d.last_advocate@ + "\n\nPresent your critique:"@
        } else {
            system_prompt + "\n\nResearch Output:\n"@ + d.output@ + "\n\nDebate History:\n"@
                + d.history@ + "\n\nAdvocate's Last Rebuttal:\n"@ + d.last_advocate@
                + "\n\nProvide your response:"@
        },
        Some(DebateRole::Synthesizer) => system_prompt + "\n\nResearch Output:\n"@ + d.output@
            + "\n\nComplete Debate Transcript:\n"@ + d.history@
            + "\n\nProvide your balanced assessment:"@,
        None => Seq::empty(),
    }
}

impl Debate {
    /// A debate of `max_rounds` rounds over `output`, before anyone speaks.
    pub fn new(output: &str, max_rounds: usize) -> (r: Debate)
        ensures
            r.output@ == output@,
            r.max_rounds == max_rounds,
            r.turn == 0,
            r.history@.len() == 0,
            r.last_advocate@.len() == 0,
            r.last_skeptic@.len() == 0,
    {
        Debate {
            output: output.to_owned(),
            max_rounds,
            turn: 0,
            history: String::new(),
            last_advocate: String::new(),
            last_skeptic: String::new(),
        }
    }

    /// Who speaks next, if anyone.
    pub fn next_speaker(&self) -> (r: Option<DebateRole>)
        requires
            self.max_rounds < usize::MAX / 2,
        ensures
            r == speaker_at(self.turn as nat, self.max_rounds as nat),
    {
        let n = 2 * self.max_rounds;
        if self.turn < n {
            if self.turn % 2 == 0 {
                Some(DebateRole::Advocate)
            } else {
                Some(DebateRole::Skeptic)
            }
        } else if self.turn == n {
            Some(DebateRole::Synthesizer)
        } else {
            None
        }
    }

    /// The prompt for the speaker of the current turn, given its system prompt.
    pub fn prompt(&self, system_prompt: &str) -> (r: String)
        requires
            self.max_rounds < usize::MAX / 2,
        ensures
            r@ == debate_prompt_spec(*self, system_prompt@),
    {
        let round = self.turn / 2 + 1;
        let mut out: Vec<char> = chars_of(system_prompt);
        match self.next_speaker() {
            Some(DebateRole::Advocate) => {
                if round == 1 {
                    append_str(&mut out, "\n\nResearch Output to Defend:\n");
                    append_str(&mut out, self.output.as_str());
                } else {
                    append_str(&mut out, "\n\nResearch Output:\n");
                    append_str(&mut out, self.output.as_str());
                    append_str(&mut out, "\n\nDebate History:\n");
                    append_str(&mut out, self.history.as_str());
                    append_str(&mut out, "\n\nSkeptic's Last Critique:\n");
                    append_str(&mut out, self.last_skeptic.as_str());
                    append_str(&mut out, "\n\nProvide your rebuttal:");
                }
            },
            Some(DebateRole::Skeptic) => {
                if round == 1 {
                    append_str(&mut out, "\n\nResearch Output:\n");
                    append_str(&mut out, self.output.as_str());
                    append_str(&mut out, "\n\nAdvocate's Defense:\n");
                    append_str(&mut out, self.last_advocate.as_str());
                    append_str(&mut out, "\n\nPresent your critique:");
                } else {
                    append_str(&mut out, "\n\nResearch Output:\n");
                    append_str(&mut out, self.output.as_str());
                    append_str(&mut out, "\n\nDebate History:\n");
                    append_str(&mut out, self.history.as_str());
                    append_str(&mut out, "\n\nAdvocate's Last Rebuttal:\n");
                    append_str(&mut out, self.last_advocate.as_str());
                    append_str(&mut out, "\n\nProvide your response:");
                }
            },
            Some(DebateRole::Synthesizer) => {
                append_str(&mut out, "\n\nResearch Output:\n");
                append_str(&mut out, self.output.as_str());
                append_str(&mut out, "\n\nComplete Debate Transcript:\n");
                append_str(&mut out, self.history.as_str());
                append_str(&mut out, "\n\nProvide your balanced assessment:");
            },
            None => {
                return String::new();
            },
        }
        string_of(&out)
    }

    /// Takes the reply of the current speaker and moves to the next turn.
    pub fn record_reply(&mut self, reply: &str)
        requires
            old(self).max_rounds < usize::MAX / 2,
            old(self).turn < 2 * old(self).max_rounds,
        ensures
            final(self).turn == old(self).turn + 1,
            final(self).output == old(self).output,
            final(self).max_rounds == old(self).max_rounds,
            speaker_at(old(self).turn as nat, old(self).max_rounds as nat) == Some(
                DebateRole::Advocate,
            ) ==> final(self).last_advocate@ == reply@ && final(self).last_skeptic
                == old(self).last_skeptic && final(self).history@ == history_after_advocate(
                old(self).history@,
                (old(self).turn / 2 + 1) as nat,
                reply@,
            ),
            speaker_at(old(self).turn as nat, old(self).max_rounds as nat) == Some(
                DebateRole::Skeptic,
            ) ==> final(self).last_skeptic@ == reply@ && final(self).last_advocate
                == old(self).last_advocate && final(self).history@ == history_after_skeptic(
                old(self).history@,
                reply@,
            ),
    {
        let mut h = chars_of(self.history.as_str());
        if self.turn % 2 == 0 {
            append_str(&mut h, "\n--- Round ");
            append_chars(&mut h, &decimal_chars(self.turn / 2 + 1));
            append_str(&mut h, " ---\n");
            append_str(&mut h, "**Advocate:**\n");
            append_str(&mut h, reply);
            append_str(&mut h, "\n\n");
            self.last_advocate = reply.to_owned();
        } else {
            append_str(&mut h, "**Skeptic:**\n");
            append_str(&mut h, reply);
            append_str(&mut h, "\n\n");
            self.last_skeptic = reply.to_owned();
        }
        self.history = string_of(&h);
        self.turn = self.turn + 1;
    }
}

/// What the refinement loop does once the debate has given its verdict.
#[derive(PartialEq, Eq, Structural, Clone, Copy, Debug)]
pub enum RefinementAction {
    /// The verdict approves: stop, keeping the current output.
    Approved,
    /// Hand the output and verdict to the refiner.
    Refine,
}

/// Decides, from the debate's verdict, whether the refiner is called.
pub fn refinement_action(verdict: &str) -> (r: RefinementAction)
    ensures
        r == RefinementAction::Approved <==> contains(upper_of(trim(verdict@)), "APPROVED"@),
{
    if is_debate_approved(verdict) {
        RefinementAction::Approved
    } else {
        RefinementAction::Refine
    }
}

/// What the document loop does once the critic has replied.
#[derive(PartialEq, Eq, Structural, Clone, Copy, Debug)]
pub enum DocumentAction {
    /// The critic approves: the draft is final.
    Approved,
    /// Another draft is written from the critique.
    Revise,
    /// The iterations are spent: the last draft is final.
    Exhausted,
}

/// Decides, after iteration `iteration` (counting from zero) of at most
/// `max_iterations`, what follows the critic's reply.
pub fn document_action(iteration: usize, max_iterations: usize, criticism: &str) -> (r:
    DocumentAction)
    ensures
        r == (if upper_of(trim(criticism@)) == "APPROVED"@ {
            DocumentAction::Approved
        } else if iteration + 1 >= max_iterations {
            DocumentAction::Exhausted
        } else {
            DocumentAction::Revise
        }),
{
    if is_document_approved(criticism) {
        DocumentAction::Approved
    } else if iteration >= max_iterations || max_iterations - iteration <= 1 {
        DocumentAction::Exhausted
    } else {
        DocumentAction::Revise
    }
}

/// The writer's prompt: a first draft from the research findings, or a
/// revision of `previous`.
pub fn writer_prompt(
    system_prompt: &str,
    query: &str,
    research: &str,
    previous: Option<&str>,
) -> (r: String)
    ensures
        previous is None ==> r@ == system_prompt@ + "\n\nOriginal Query: "@ + query@
            + "\n\nResearch Findings:\n"@ + research@
            + "\n\nCreate a comprehensive, professional document that fully answers the query."@,
        previous matches Some(p) ==> r@ == system_prompt@ + "\n\nOriginal Query: "@ + query@
            + "\n\nResearch Findings:\n"@ + research@ + "\n\nPrevious Document Draft:\n"@ + p@
            + "\n\nRevise the previous document to address any shortcomings while maintaining its strengths."@,
{
    let mut out: Vec<char> = chars_of(system_prompt);
    append_str(&mut out, "\n\nOriginal Query: ");
    append_str(&mut out, query);
    append_str(&mut out, "\n\nResearch Findings:\n");
    append_str(&mut out, research);
    match previous {
        Some(p) => {
            append_str(&mut out, "\n\nPrevious Document Draft:\n");
            append_str(&mut out, p);
            append_str(
                &mut out,
                "\n\nRevise the previous document to address any shortcomings while maintaining its strengths.",
            );
        },
        None => {
            append_str(
                &mut out,
                "\n\nCreate a comprehensive, professional document that fully answers the query.",
            );
        },
    }
    string_of(&out)
}

} // verus!
