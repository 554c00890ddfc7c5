//! Bookkeeping about step functions: where they are defined, the patterns
//! they match, and the error of a step matching several of them.

pub mod captures;
pub mod collection;
pub mod context;
pub mod error;
pub mod location;
pub mod hashable_regex;

pub use collection::Collection;
pub use context::{CaptureName, Context};
pub use error::AmbiguousMatchError;
pub use location::Location;
pub use hashable_regex::HashableRegex;
