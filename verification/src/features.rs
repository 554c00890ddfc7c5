//! Optional features of this library and what is enabled in this build.

use vstd::prelude::*;

use crate::text::push_str;

verus! {

/// Whether the `macros` feature is enabled; this build has none.
pub fn has_macros_feature() -> (r: bool)
    ensures
        !r,
{
    false
}

/// Whether the `tracing` feature is enabled; this build has none.
pub fn has_tracing_feature() -> (r: bool)
    ensures
        !r,
{
    false
}

/// Names of the enabled features.
pub fn enabled_features() -> (r: &'static [&'static str])
    ensures
        r@.len() == 0,
{
    let none: &'static [&'static str] = &[];
    none
}

/// Names joined by `, `.
pub open spec fn joined(names: Seq<&'static str>) -> Seq<char>
    decreases names.len(),
{
    if names.len() == 0 {
        Seq::empty()
    } else if names.len() == 1 {
        names[0]@
    } else {
        joined(names.drop_last()) + ", "@ + names.last()@
    }
}

/// Summary of the enabled features.
pub open spec fn summary_text(names: Seq<&'static str>) -> Seq<char> {
    if names.len() == 0 {
        "No optional features enabled"@
    } else {
        "Enabled features: "@ + joined(names)
    }
}

/// Describes the enabled features in one sentence.
pub fn features_summary() -> (s: String)
    ensures
        s@ == summary_text(Seq::empty()),
{
    let features = enabled_features();
    let mut s = String::new();
    if features.len() == 0 {
        push_str(&mut s, "No optional features enabled");
        return s;
    }
    push_str(&mut s, "Enabled features: ");
    let ghost head = s@;
    let mut i: usize = 0;
    while i < features.len()
        invariant
            i <= features@.len(),
            features@.len() == 0,
            s@ == head + joined(features@.take(i as int)),
        decreases features.len() - i,
    {
        if i > 0 {
            push_str(&mut s, ", ");
        }
        push_str(&mut s, features[i]);
        proof {
            assert(features@.take(i + 1).drop_last() == features@.take(i as int));
            if i == 0 {
                assert(features@.take(0) =~= Seq::<&'static str>::empty());
            }
        }
        i += 1;
    }
    assert(features@.take(features@.len() as int) == features@);
    s
}

} // verus!
