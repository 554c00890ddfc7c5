//! What a step function is handed when it runs: the step and the text of
//! each capture group of the pattern it matched.

use vstd::prelude::*;

use crate::feature::opt_view;
use crate::gherkin;
use crate::text::str_eq;

verus! {

/// Name of a capture group inside a step pattern; `None` for an unnamed one.
pub type CaptureName = Option<String>;

/// The captures reduced to plain values: group name and captured text.
pub open spec fn captures_view(m: Seq<(CaptureName, String)>) -> Seq<(Option<Seq<char>>, Seq<char>)> {
    m.map_values(|c: (CaptureName, String)| (opt_view(c.0), c.1@))
}

/// Whether the capture at `i` is named `name`.
pub open spec fn named(m: Seq<(CaptureName, String)>, i: int, name: Seq<char>) -> bool {
    m[i].0 matches Some(n) && n@ == name
}

/// Context of a step function execution.
#[derive(Clone, Debug)]
pub struct Context {
    /// The step matched to the step function.
    pub step: gherkin::Step,
    /// Name and text of each capture group of the matched pattern; the first
    /// one is the whole match.
    pub matches: Vec<(CaptureName, String)>,
}

impl Context {
    /// Creates a context from a step and its captures.
    pub fn new(step: gherkin::Step, matches: Vec<(CaptureName, String)>) -> (c: Self)
        ensures
            c.step == step,
            c.matches == matches,
    {
        Context { step, matches }
    }

    /// Returns the step.
    pub fn step(&self) -> (s: &gherkin::Step)
        ensures
            *s == self.step,
    {
        &self.step
    }

    /// Returns the captures.
    pub fn matches(&self) -> (m: &[(CaptureName, String)])
        ensures
            m@ == self.matches@,
    {
        self.matches.as_slice()
    }

    /// Returns the text of the first capture group named `name`, if any.
    pub fn get_named_capture(&self, name: &str) -> (r: Option<&str>)
        ensures
            match r {
                Some(v) => exists|i: int|
                    0 <= i < self.matches@.len() && named(self.matches@, i, name@)
                        && v@ == self.matches@[i].1@
                        && forall|j: int| 0 <= j < i ==> !named(self.matches@, j, name@),
                None => forall|i: int| 0 <= i < self.matches@.len() ==> !named(self.matches@, i, name@),
            },
    {
        let n = self.matches.len();
        let mut i: usize = 0;
        while i < n
            invariant
                n == self.matches@.len(),
                i <= n,
                forall|j: int| 0 <= j < i ==> !named(self.matches@, j, name@),
            decreases n - i,
        {
            let m = &self.matches[i];
            match &m.0 {
                Some(cn) => {
                    if str_eq(cn.as_str(), name) {
                        assert(named(self.matches@, i as int, name@));
                        return Some(m.1.as_str());
                    }
                },
                None => {},
            }
            i += 1;
        }
        None
    }

    /// Returns the text of capture group `index` (`0` is the whole match).
    pub fn get_capture(&self, index: usize) -> (r: Option<&str>)
        ensures
            match r {
                Some(v) => index < self.matches@.len() && v@ == self.matches@[index as int].1@,
                None => index >= self.matches@.len(),
            },
    {
        if index < self.matches.len() {
            Some(self.matches[index].1.as_str())
        } else {
            None
        }
    }

    /// Returns the number of capture groups, the whole match included.
    pub fn capture_count(&self) -> (n: usize)
        ensures
            n == self.matches@.len(),
    {
        self.matches.len()
    }
}

} // verus!
