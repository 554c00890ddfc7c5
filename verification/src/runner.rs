//! Executing scenarios: run statistics and the default runner's logic.

pub mod basic;
pub mod flow;
pub mod log_frames;
pub mod stats;

pub use basic::{RetryOptions, ScenarioType};
pub use stats::{RunResult, Stats};
