//! Verified core of a Cucumber-style BDD test runner: scenario retry policy,
//! scenario scheduling, run statistics, Scenario Outline expansion and step
//! matching bookkeeping.

pub mod event;
pub mod examples;
pub mod exports;
pub mod expression;
pub mod feature;
pub mod features;
pub mod gherkin;
pub mod observer;
pub mod output;
pub mod panic_trap;
pub mod parser;
pub mod runner;
pub mod step;
pub mod tag;
pub mod text;
pub mod time;
pub mod world;
