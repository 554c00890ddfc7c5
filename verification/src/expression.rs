//! Custom parameters of Cucumber Expressions.

use vstd::prelude::*;

verus! {

/// Custom Cucumber Expressions parameter, for users of this library to
/// implement.
pub trait Parameter {
    /// Regular expression matching this parameter; it has no capture group.
    const REGEX: &'static str;

    /// Name this parameter is referred to by.
    const NAME: &'static str;
}

} // verus!
