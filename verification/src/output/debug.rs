//! A console writer that prints one plain line per visited item.

use vstd::prelude::*;

use crate::text::{push_char, push_str};

verus! {

/// Writer printing `visit_*` lines, for debugging.
#[derive(Debug)]
pub struct DebugOutput;

impl DebugOutput {
    /// The line printed when a feature is visited: its name and path.
    pub fn feature_line(&self, name: &str, path: &str) -> (s: String)
        ensures
            s@ == "visit_feature "@ + name@ + seq![' '] + path@,
    {
        let mut s = String::new();
        push_str(&mut s, "visit_feature ");
        push_str(&mut s, name);
        push_char(&mut s, ' ');
        push_str(&mut s, path);
        s
    }

    /// The line printed for a visited item of the given kind and name.
    pub fn item_line(&self, kind: &str, name: &str) -> (s: String)
        ensures
            s@ == "visit_"@ + kind@ + seq![' '] + name@,
    {
        let mut s = String::new();
        push_str(&mut s, "visit_");
        push_str(&mut s, kind);
        push_char(&mut s, ' ');
        push_str(&mut s, name);
        s
    }
}

} // verus!
