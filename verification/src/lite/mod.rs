//! A smaller server: one stream per run, no checkpoints, one awaited tool at a time.

pub mod config;
pub mod http;
pub mod laws;
pub mod orchestrator;
pub mod run;
