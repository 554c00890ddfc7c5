//! Public API exports: the library's version information and a few
//! re-exports.

pub mod version;

pub use crate::gherkin;
pub use std::future::Future;
