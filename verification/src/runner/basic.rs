//! Default runner: retry policy, scenario storage and execution decisions.

pub mod builder;
pub mod cli_and_types;
pub mod execution_engine;
pub mod executor;
pub mod finished;
pub mod queue;
pub mod scenario_storage;
pub mod supporting_structures;

pub use cli_and_types::{Cli, RetryOptions, RetryOptionsWithDeadline, ScenarioType};
pub use supporting_structures::{ScenarioId, ScenarioIds};
