use vstd::prelude::*;

verus! {

/// Default cap on tool-calling iterations of one LM conversation.
pub fn default_max_tool_turns() -> (r: usize)
    ensures
        r == 5,
{
    5
}

/// Default context window of the model, in tokens.
pub fn default_context_window() -> (r: usize)
    ensures
        r == 128000,
{
    128000
}

/// Default number of debate-and-refine rounds.
pub fn default_max_refinement_iterations() -> (r: usize)
    ensures
        r == 5,
{
    5
}

/// Default number of write-and-review rounds for the final document.
pub fn default_max_document_iterations() -> (r: usize)
    ensures
        r == 3,
{
    3
}

/// Default least number of workers a plan asks for.
pub fn default_min_worker_count() -> (r: usize)
    ensures
        r == 3,
{
    3
}

/// Default greatest number of workers a plan asks for.
pub fn default_max_worker_count() -> (r: usize)
    ensures
        r == 10,
{
    10
}

/// Default number of advocate/skeptic rounds in a debate.
pub fn default_max_debate_rounds() -> (r: usize)
    ensures
        r == 2,
{
    2
}

/// Default embedding model.
pub fn default_embedding_model() -> (r: String)
    ensures
        r@ == "nomic-embed-text"@,
{
    "nomic-embed-text".to_owned()
}

/// Default embedding dimension, which the vector index is built for.
pub fn default_embedding_dimensions() -> (r: usize)
    ensures
        r == 768,
{
    768
}

/// Default vision model.
pub fn default_vision_model() -> (r: String)
    ensures
        r@ == "llama3.2-vision:11b"@,
{
    "llama3.2-vision:11b".to_owned()
}

/// Default research model: none, so the main model is used.
pub fn default_research_model() -> (r: Option<String>)
    ensures
        r is None,
{
    None
}

/// Default summarization model: none, so the main model is used.
pub fn default_summarization_model() -> (r: Option<String>)
    ensures
        r is None,
{
    None
}

/// Default byte budget of one tool result before it is condensed.
pub fn default_summarization_threshold() -> (r: usize)
    ensures
        r == 5000,
{
    5000
}

/// Default byte budget of one worker answer before it is condensed.
pub fn default_summarization_threshold_research() -> (r: usize)
    ensures
        r == 10000,
{
    10000
}

/// By default the memory summary is not appended to the document.
pub fn default_export_memories() -> (r: bool)
    ensures
        !r,
{
    false
}

/// Settings of the model endpoint and of the research loops.
#[derive(Clone, Debug)]
pub struct OllamaConfig {
    pub host: String,
    pub model: String,
    pub vision_model: String,
    pub research_model: Option<String>,
    pub summarization_model: Option<String>,
    pub embedding_model: String,
    pub embedding_dimensions: usize,
    pub max_refinement_iterations: usize,
    pub max_document_iterations: usize,
    pub max_debate_rounds: usize,
    pub context_window: usize,
    pub max_tool_turns: usize,
    pub summarization_threshold: usize,
    pub summarization_threshold_research: usize,
}

/// Settings of research mode.
#[derive(Clone, Debug)]
pub struct ResearchConfig {
    pub min_worker_count: usize,
    pub max_worker_count: usize,
    pub export_memories: bool,
}

impl Default for ResearchConfig {
    fn default() -> (r: Self)
        ensures
            r.min_worker_count == 3,
            r.max_worker_count == 10,
            !r.export_memories,
    {
        ResearchConfig {
            min_worker_count: default_min_worker_count(),
            max_worker_count: default_max_worker_count(),
            export_memories: default_export_memories(),
        }
    }
}

/// The whole configuration file.
#[derive(Clone, Debug)]
pub struct Config {
    pub ollama: OllamaConfig,
    pub research: ResearchConfig,
}

impl Default for Config {
    fn default() -> (r: Self)
        ensures
            r.ollama.host@ == "http://localhost:11434"@,
            r.ollama.model@ == "llama2"@,
            r.ollama.vision_model@ == "llama3.2-vision:11b"@,
            r.ollama.research_model is None,
            r.ollama.summarization_model is None,
            r.ollama.embedding_model@ == "nomic-embed-text"@,
            r.ollama.embedding_dimensions == 768,
            r.ollama.max_refinement_iterations == 5,
            r.ollama.max_document_iterations == 3,
            r.ollama.max_debate_rounds == 2,
            r.ollama.context_window == 128000,
            r.ollama.max_tool_turns == 5,
            r.ollama.summarization_threshold == 5000,
            r.ollama.summarization_threshold_research == 10000,
            r.research.min_worker_count == 3,
            r.research.max_worker_count == 10,
            !r.research.export_memories,
    {
        Config {
            ollama: OllamaConfig {
                host: "http://localhost:11434".to_owned(),
                model: "llama2".to_owned(),
                vision_model: default_vision_model(),
                research_model: default_research_model(),
                summarization_model: default_summarization_model(),
                embedding_model: default_embedding_model(),
                embedding_dimensions: default_embedding_dimensions(),
                max_refinement_iterations: default_max_refinement_iterations(),
                max_document_iterations: default_max_document_iterations(),
                max_debate_rounds: default_max_debate_rounds(),
                context_window: default_context_window(),
                max_tool_turns: default_max_tool_turns(),
                summarization_threshold: default_summarization_threshold(),
                summarization_threshold_research: default_summarization_threshold_research(),
            },
            research: ResearchConfig::default(),
        }
    }
}

} // verus!
