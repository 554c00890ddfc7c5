//! Console output of a run: what is printed for each event, in which color,
//! laid out for the terminal width. The printing itself is left to the
//! program around this library.

pub mod basic;
pub mod debug;


pub use basic::BasicOutput;
pub use debug::DebugOutput;
