//! Regular expressions compared, ordered and hashed by their pattern text.

use vstd::prelude::*;
use vstd::std_specs::cmp::{PartialEqSpecImpl, PartialOrdSpecImpl};

use core::cmp::Ordering;

use crate::text::{compare_str, lemma_lex_order_props, lex_order, push_str, str_eq};

verus! {

#[verifier::external_type_specification]
#[verifier::external_body]
pub struct ExRegex(::regex::Regex);

/// The pattern text a compiled [`Regex`](::regex::Regex) was built from.
pub uninterp spec fn regex_source(r: ::regex::Regex) -> Seq<char>;

/// `Regex::as_str`: the pattern text the regex was compiled from.
#[verifier::external_body]
fn regex_as_str(r: &::regex::Regex) -> (s: &str)
    ensures
        s@ == regex_source(*r),
{
    r.as_str()
}

/// `Regex::clone`: a regex compiled from the same pattern.
#[verifier::external_body]
fn regex_clone(r: &::regex::Regex) -> (c: ::regex::Regex)
    ensures
        regex_source(c) == regex_source(*r),
{
    r.clone()
}

/// Order of two patterns as a `std` ordering.
pub open spec fn ordering_of(c: int) -> Ordering {
    if c < 0 {
        Ordering::Less
    } else if c == 0 {
        Ordering::Equal
    } else {
        Ordering::Greater
    }
}

/// [`Regex`](::regex::Regex) wrapper with equality, ordering and hashing by pattern text.
#[derive(Debug)]
pub struct HashableRegex(::regex::Regex);

impl View for HashableRegex {
    type V = Seq<char>;

    closed spec fn view(&self) -> Seq<char> {
        regex_source(self.0)
    }
}

impl HashableRegex {
    /// Wraps a [`Regex`](::regex::Regex).
    pub fn new(regex: ::regex::Regex) -> (h: Self)
        ensures
            h@ == regex_source(regex),
            h.re() == regex,
    {
        HashableRegex(regex)
    }

    /// Returns a reference to the inner [`Regex`](::regex::Regex).
    pub fn inner(&self) -> (r: &::regex::Regex)
        ensures
            regex_source(*r) == self@,
            *r == self.re(),
    {
        &self.0
    }

    /// Consumes the wrapper and returns the inner [`Regex`](::regex::Regex).
    pub fn into_inner(self) -> (r: ::regex::Regex)
        ensures
            regex_source(r) == self@,
            r == self.re(),
    {
        self.0
    }

    /// Returns the pattern text.
    pub fn as_str(&self) -> (s: &str)
        ensures
            s@ == self@,
    {
        regex_as_str(&self.0)
    }

    /// Returns the pattern text as an owned string (its display form).
    pub fn to_string(&self) -> (s: String)
        ensures
            s@ == self@,
    {
        let mut s = String::new();
        push_str(&mut s, self.as_str());
        s
    }

    /// Compares two wrapped regexes by their pattern text.
    pub fn cmp(&self, other: &Self) -> (o: Ordering)
        ensures
            o == ordering_of(lex_order(self@, other@)),
    {
        let c = compare_str(self.as_str(), other.as_str());
        if c < 0 {
            Ordering::Less
        } else if c == 0 {
            Ordering::Equal
        } else {
            Ordering::Greater
        }
    }
}

impl core::ops::Deref for HashableRegex {
    type Target = ::regex::Regex;

    fn deref(&self) -> (r: &::regex::Regex)
        ensures
            *r == self.re(),
    {
        &self.0
    }
}

impl From<::regex::Regex> for HashableRegex {
    fn from(re: ::regex::Regex) -> (h: Self) {
        HashableRegex(re)
    }
}

impl vstd::std_specs::convert::FromSpecImpl<::regex::Regex> for HashableRegex {
    open spec fn obeys_from_spec() -> bool {
        true
    }

    closed spec fn from_spec(re: ::regex::Regex) -> Self {
        HashableRegex(re)
    }
}

impl Clone for HashableRegex {
    fn clone(&self) -> (c: Self)
        ensures
            c@ == self@,
    {
        HashableRegex(regex_clone(&self.0))
    }
}

impl PartialEq for HashableRegex {
    fn eq(&self, other: &Self) -> (r: bool) {
        str_eq(self.as_str(), other.as_str())
    }
}

impl PartialEqSpecImpl for HashableRegex {
    open spec fn obeys_eq_spec() -> bool {
        true
    }

    open spec fn eq_spec(&self, other: &Self) -> bool {
        self@ == other@
    }
}

impl Eq for HashableRegex {}

impl PartialOrd for HashableRegex {
    fn partial_cmp(&self, other: &Self) -> (r: Option<Ordering>) {
        Some(self.cmp(other))
    }
}

impl PartialOrdSpecImpl for HashableRegex {
    open spec fn obeys_partial_cmp_spec() -> bool {
        true
    }

    open spec fn partial_cmp_spec(&self, other: &Self) -> Option<Ordering> {
        Some(ordering_of(lex_order(self@, other@)))
    }
}

impl core::hash::Hash for HashableRegex {
    #[verifier::external_body]
    fn hash<H: core::hash::Hasher>(&self, state: &mut H) {
        self.0.as_str().hash(state)
    }
}

/// The pattern text of a wrapper is that of the regex it wraps.
pub proof fn lemma_view_is_source(h: &HashableRegex)
    ensures
        h@ == regex_source(h.re()),
{
}

/// Two wrapped regexes compare equal exactly when their patterns are equal,
/// and swapping them reverses their order.
pub proof fn lemma_order_agrees_with_equality(a: &HashableRegex, b: &HashableRegex)
    ensures
        (a.cmp_spec(b) == Ordering::Equal) <==> a@ == b@,
        a.cmp_spec(b) == Ordering::Less <==> b.cmp_spec(a) == Ordering::Greater,
{
    lemma_lex_order_props(a@, b@);
}

impl HashableRegex {
    /// The wrapped regex.
    pub closed spec fn re(&self) -> ::regex::Regex {
        self.0
    }

    /// The order [`HashableRegex::cmp`] computes.
    pub open spec fn cmp_spec(&self, other: &Self) -> Ordering {
        ordering_of(lex_order(self@, other@))
    }
}

} // verus!
