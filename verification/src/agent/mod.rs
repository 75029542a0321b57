//! Agent orchestration: the loop of a run, its guards, tools and middleware.

pub mod error;
pub mod follow_up;
pub mod guard_laws;
pub mod guards;
pub mod middleware;
pub mod orchestrator;
pub mod summarize;
pub mod summary_laws;
pub mod tools;
