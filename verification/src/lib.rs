//! The logic of a cloud agent server.
//!
//! `api` answers requests and frames events; `agent` is the loop of a run with its limits,
//! middlewares and server tools; `llm`, `runtime` and `store` are the model, the runs under way and
//! their checkpoints; `protocol` has the types of the wire. `lite` is a smaller server, and
//! `agent_loop` a loop whose tools run in the same process.

pub mod agent;
pub mod agent_loop;
pub mod api;
pub mod backend;
pub mod backend_laws;
pub mod config;
pub mod config_laws;
pub mod dup;
pub mod error;
pub mod event_stream;
pub mod json;
pub mod json_laws;
pub mod keyed;
pub mod lite;
pub mod liter_backend;
pub mod llm;
pub mod loop_laws;
pub mod protocol;
pub mod runtime;
pub mod runtime_laws;
pub mod store;
pub mod stub_backend;
pub mod text;
pub mod text_laws;
pub mod types;

pub use config::AppConfig;
pub use llm::{LlmChunk, MockLlm, MockTurn, ToolCall};
