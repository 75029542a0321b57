//! The loop of a run, as a machine that is told what happened and says what to do next.

pub mod call_laws;
pub mod laws;
pub mod rules;
pub mod state;
pub mod step_laws;
pub mod steps;
pub mod task_laws;
pub mod tasks;
pub mod turn_laws;
