//! Error of a step matching several step patterns.

use vstd::prelude::*;

use core::cmp::Ordering;
use itertools::Itertools;

use super::location::{location_text, Location};
use super::hashable_regex::{ordering_of, HashableRegex};
use crate::text::{compare_str, lex_order, push_str};

verus! {

/// A possible match reduced to plain values: pattern text and location.
pub open spec fn match_view(m: (HashableRegex, Option<Location>)) -> (Seq<char>, Option<Location>) {
    (m.0@, m.1)
}

/// The possible matches reduced to plain values.
pub open spec fn matches_view(v: Seq<(HashableRegex, Option<Location>)>) -> Seq<(Seq<char>, Option<Location>)> {
    v.map_values(|m: (HashableRegex, Option<Location>)| match_view(m))
}

/// Order of two integers: `-1`, `0` or `1`.
pub open spec fn int_order(a: int, b: int) -> int {
    if a < b { -1 } else if a == b { 0 } else { 1 }
}

/// Order of two locations: by path, then line, then column.
pub open spec fn location_order(a: Location, b: Location) -> int {
    let p = lex_order(a.path@, b.path@);
    if p != 0 {
        p
    } else if a.line != b.line {
        int_order(a.line as int, b.line as int)
    } else {
        int_order(a.column as int, b.column as int)
    }
}

/// Order of two optional locations: a missing one comes first.
pub open spec fn opt_location_order(a: Option<Location>, b: Option<Location>) -> int {
    match (a, b) {
        (None, None) => 0,
        (None, Some(_)) => -1,
        (Some(_), None) => 1,
        (Some(x), Some(y)) => location_order(x, y),
    }
}

/// Order of two possible matches: by pattern text, then by location.
pub open spec fn match_order(a: (Seq<char>, Option<Location>), b: (Seq<char>, Option<Location>)) -> int {
    let p = lex_order(a.0, b.0);
    if p != 0 { p } else { opt_location_order(a.1, b.1) }
}

/// Display form of one possible match: a new line, the pattern, and the
/// location after ` --> ` when there is one.
pub open spec fn match_text(m: (Seq<char>, Option<Location>)) -> Seq<char> {
    seq!['\n'] + m.0 + match m.1 {
        Some(l) => " --> "@ + location_text(l.path@, l.line, l.column),
        None => Seq::empty(),
    }
}

/// Display forms of all possible matches, in order.
pub open spec fn matches_text(ms: Seq<(Seq<char>, Option<Location>)>) -> Seq<char>
    decreases ms.len(),
{
    if ms.len() == 0 {
        Seq::empty()
    } else {
        matches_text(ms.drop_last()) + match_text(ms.last())
    }
}

fn compare_ints(a: u32, b: u32) -> (r: i8)
    ensures
        r == int_order(a as int, b as int),
{
    if a < b { -1 } else if a == b { 0 } else { 1 }
}

fn compare_locations(a: &Option<Location>, b: &Option<Location>) -> (r: i8)
    ensures
        r == opt_location_order(*a, *b),
{
    match (a, b) {
        (None, None) => 0,
        (None, Some(_)) => -1,
        (Some(_), None) => 1,
        (Some(x), Some(y)) => {
            let p = compare_str(x.path, y.path);
            if p != 0 {
                p
            } else if x.line != y.line {
                compare_ints(x.line, y.line)
            } else {
                compare_ints(x.column, y.column)
            }
        },
    }
}

/// Compares two possible matches by pattern text, then by location.
pub fn compare_matches(
    a: &(HashableRegex, Option<Location>),
    b: &(HashableRegex, Option<Location>),
) -> (o: Ordering)
    ensures
        o == ordering_of(match_order(match_view(*a), match_view(*b))),
{
    let p = compare_str(a.0.as_str(), b.0.as_str());
    let c = if p != 0 { p } else { compare_locations(&a.1, &b.1) };
    if c < 0 {
        Ordering::Less
    } else if c == 0 {
        Ordering::Equal
    } else {
        Ordering::Greater
    }
}

/// `Itertools::sorted_by` with [`compare_matches`]: the same matches,
/// ordered so that no match comes after one it orders before.
#[verifier::external_body]
pub(crate) fn sort_matches(v: Vec<(HashableRegex, Option<Location>)>) -> (r: Vec<(HashableRegex, Option<Location>)>)
    ensures
        matches_view(r@).to_multiset() == matches_view(v@).to_multiset(),
        forall|i: int, j: int|
            0 <= i < j < r@.len() ==> match_order(match_view(r@[i]), match_view(r@[j])) <= 0,
{
    v.into_iter().sorted_by(|a, b| compare_matches(a, b)).collect()
}

/// Copies possible matches: the same patterns and locations, in order.
fn copy_matches(v: &Vec<(HashableRegex, Option<Location>)>) -> (r: Vec<(HashableRegex, Option<Location>)>)
    ensures
        matches_view(r@) == matches_view(v@),
{
    let mut copy: Vec<(HashableRegex, Option<Location>)> = Vec::new();
    let n = v.len();
    let mut i: usize = 0;
    while i < n
        invariant
            n == v@.len(),
            i <= n,
            matches_view(copy@) == matches_view(v@.take(i as int)),
        decreases n - i,
    {
        let m = &v[i];
        let c = m.0.clone();
        assert(c@ == m.0@);
        let ghost old_copy = copy@;
        copy.push((c, m.1));
        proof {
            assert(copy@ == old_copy.push((c, m.1)));
            assert(matches_view(copy@) =~= matches_view(old_copy).push(match_view(*m)));
            assert(v@.take(i + 1) == v@.take(i as int).push(*m));
            assert(matches_view(copy@) =~= matches_view(v@.take(i + 1)));
        }
        i += 1;
    }
    assert(v@.take(n as int) == v@);
    copy
}

/// Error of a step matching multiple step patterns.
#[derive(Debug)]
pub struct AmbiguousMatchError {
    /// Patterns the step matches, with the location of their step functions.
    pub possible_matches: Vec<(HashableRegex, Option<Location>)>,
}

impl Clone for AmbiguousMatchError {
    fn clone(&self) -> (c: Self)
        ensures
            matches_view(c.possible_matches@) == matches_view(self.possible_matches@),
    {
        AmbiguousMatchError { possible_matches: copy_matches(&self.possible_matches) }
    }
}

impl AmbiguousMatchError {
    /// Creates a new error holding the given possible matches.
    pub fn new(possible_matches: Vec<(HashableRegex, Option<Location>)>) -> (e: Self)
        ensures
            e.possible_matches == possible_matches,
    {
        Self { possible_matches }
    }

    /// Returns the possible matches.
    pub fn possible_matches(&self) -> (m: &[(HashableRegex, Option<Location>)])
        ensures
            m@ == self.possible_matches@,
    {
        self.possible_matches.as_slice()
    }

    /// Returns the number of possible matches.
    pub fn match_count(&self) -> (n: usize)
        ensures
            n == self.possible_matches@.len(),
    {
        self.possible_matches.len()
    }

    /// Returns the pattern text of each possible match, in order.
    pub fn patterns(&self) -> (r: Vec<&str>)
        ensures
            r@.len() == self.possible_matches@.len(),
            forall|i: int| 0 <= i < r@.len() ==> (#[trigger] r@[i])@ == self.possible_matches@[i].0@,
    {
        let mut r: Vec<&str> = Vec::new();
        let n = self.possible_matches.len();
        let mut i: usize = 0;
        while i < n
            invariant
                n == self.possible_matches@.len(),
                i <= n,
                r@.len() == i,
                forall|k: int| 0 <= k < i ==> (#[trigger] r@[k])@ == self.possible_matches@[k].0@,
            decreases n - i,
        {
            r.push(self.possible_matches[i].0.as_str());
            i += 1;
        }
        r
    }

    /// Returns the location of each possible match, in order.
    pub fn locations(&self) -> (r: Vec<Option<&Location>>)
        ensures
            r@.len() == self.possible_matches@.len(),
            forall|i: int| 0 <= i < r@.len() ==> match #[trigger] r@[i] {
                Some(l) => self.possible_matches@[i].1 == Some(*l),
                None => self.possible_matches@[i].1 is None,
            },
    {
        let mut r: Vec<Option<&Location>> = Vec::new();
        let n = self.possible_matches.len();
        let mut i: usize = 0;
        while i < n
            invariant
                n == self.possible_matches@.len(),
                i <= n,
                r@.len() == i,
                forall|k: int| 0 <= k < i ==> match #[trigger] r@[k] {
                    Some(l) => self.possible_matches@[k].1 == Some(*l),
                    None => self.possible_matches@[k].1 is None,
                },
            decreases n - i,
        {
            r.push(self.possible_matches[i].1.as_ref());
            i += 1;
        }
        r
    }

    /// Returns the possible matches ordered by pattern text, then location.
    pub fn sorted_matches(&self) -> (r: Vec<(HashableRegex, Option<Location>)>)
        ensures
            matches_view(r@).to_multiset() == matches_view(self.possible_matches@).to_multiset(),
            forall|i: int, j: int|
                0 <= i < j < r@.len() ==> match_order(match_view(r@[i]), match_view(r@[j])) <= 0,
    {
        let copy = copy_matches(&self.possible_matches);
        sort_matches(copy)
    }

    /// Returns the display form: `Possible matches:` followed by one line per
    /// match, with its location after ` --> ` when known.
    pub fn to_string(&self) -> (s: String)
        ensures
            s@ == "Possible matches:"@ + matches_text(matches_view(self.possible_matches@)),
    {
        let mut s = String::new();
        push_str(&mut s, "Possible matches:");
        let n = self.possible_matches.len();
        let mut i: usize = 0;
        while i < n
            invariant
                n == self.possible_matches@.len(),
                i <= n,
                s@ == "Possible matches:"@ + matches_text(matches_view(self.possible_matches@.take(i as int))),
            decreases n - i,
        {
            let m = &self.possible_matches[i];
            let ghost before = s@;
            push_str(&mut s, "\n");
            push_str(&mut s, m.0.as_str());
            match &m.1 {
                Some(l) => {
                    push_str(&mut s, " --> ");
                    let t = l.to_string();
                    push_str(&mut s, t.as_str());
                },
                None => {},
            }
            proof {
                reveal_strlit("\n");
                let ms = matches_view(self.possible_matches@.take(i + 1));
                assert(self.possible_matches@.take(i + 1).drop_last() == self.possible_matches@.take(i as int));
                assert(ms.drop_last() =~= matches_view(self.possible_matches@.take(i as int)));
                assert(ms.last() == match_view(*m));
                assert(s@ =~= before + match_text(match_view(*m)));
            }
            i += 1;
        }
        assert(self.possible_matches@.take(n as int) == self.possible_matches@);
        s
    }
}

} // verus!
