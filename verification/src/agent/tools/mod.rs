//! Built-in server tools.

pub mod calendar;
pub mod calendar_laws;
pub mod laws;
pub mod plan;
pub mod task;
