//! The decision logic of a multi-agent research orchestrator, verified with
//! Verus: planning and worker assignment, the tool-calling conversation, the
//! tool executor's policies, debate and document loops, the worker context,
//! and reference extraction. I/O lives in the program under `app/`.

pub mod calendar;
pub mod config;
pub mod debate;
pub mod dynamic_context;
pub mod json_path;
pub mod json_scan;
pub mod lm_client;
pub mod memory;
pub mod memory_export;
pub mod progress;
pub mod rate_limit;
pub mod research;
pub mod sources;
pub mod status;
pub mod supervisor;
pub mod text;
pub mod tools;
pub mod urls;
