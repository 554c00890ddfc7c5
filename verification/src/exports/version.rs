//! Version information of this library.

use vstd::prelude::*;

use crate::text::{push_char, push_str};

verus! {

/// Returns the version of this library.
pub fn version() -> (v: &'static str)
    ensures
        v@ == "0.21.1"@,
{
    "0.21.1"
}

/// Returns the name of this library.
pub fn name() -> (n: &'static str)
    ensures
        n@ == "cucumber"@,
{
    "cucumber"
}

/// Returns the description of this library.
pub fn description() -> (d: &'static str)
    ensures
        d@ == "Cucumber testing framework for Rust, with async support. Fully native, no external test runners or dependencies."@,
{
    "Cucumber testing framework for Rust, with async support. Fully native, no external test runners or dependencies."
}

/// Returns `name v<version>`.
pub fn version_string() -> (s: String)
    ensures
        s@ == "cucumber v0.21.1"@,
{
    let mut s = String::new();
    push_str(&mut s, name());
    push_char(&mut s, ' ');
    push_char(&mut s, 'v');
    push_str(&mut s, version());
    proof {
        reveal_strlit("cucumber");
        reveal_strlit("0.21.1");
        reveal_strlit("cucumber v0.21.1");
        assert(s@ =~= "cucumber v0.21.1"@);
    }
    s
}

} // verus!
