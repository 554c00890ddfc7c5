//! Spans of time as used by retry delays, with their arithmetic proved.

use vstd::prelude::*;

verus! {

/// Nanoseconds in one second.
pub const NANOS_PER_SEC: u32 = 1_000_000_000;

/// A span of time: whole seconds plus a sub-second count of nanoseconds.
#[derive(Clone, Copy, Debug, PartialEq, Eq, Structural, Hash, PartialOrd, Ord)]
pub struct Duration {
    secs: u64,
    nanos: u32,
}

impl Duration {
    /// Sub-second nanoseconds stay below one second.
    #[verifier::type_invariant]
    spec fn well_formed(self) -> bool {
        self.nanos < NANOS_PER_SEC
    }

    /// Total length in nanoseconds.
    pub closed spec fn total_nanos(self) -> nat {
        (self.secs as nat) * (NANOS_PER_SEC as nat) + self.nanos as nat
    }

    /// The duration of `secs` seconds and `nanos` nanoseconds.
    pub closed spec fn spec_new(secs: u64, nanos: u32) -> Self {
        Self { secs, nanos }
    }

    /// The duration `self - other`, for `other` no longer than `self`.
    pub closed spec fn minus(self, other: Self) -> Self
        recommends
            other.total_nanos() <= self.total_nanos(),
    {
        let t = self.total_nanos() - other.total_nanos();
        Self { secs: (t / 1_000_000_000) as u64, nanos: (t % 1_000_000_000) as u32 }
    }

    /// Whole seconds.
    pub closed spec fn spec_secs(self) -> u64 {
        self.secs
    }

    /// Sub-second nanoseconds.
    pub closed spec fn spec_subsec_nanos(self) -> u32 {
        self.nanos
    }

    /// Creates a duration of `secs` seconds and `nanos` nanoseconds.
    pub fn new(secs: u64, nanos: u32) -> (d: Self)
        requires
            nanos < NANOS_PER_SEC,
        ensures
            d == Self::spec_new(secs, nanos),
            d.spec_secs() == secs,
            d.spec_subsec_nanos() == nanos,
            d.total_nanos() == secs * 1_000_000_000 + nanos,
    {
        Self { secs, nanos }
    }

    /// A duration of zero length.
    pub fn zero() -> (d: Self)
        ensures
            d.total_nanos() == 0,
    {
        Self { secs: 0, nanos: 0 }
    }

    /// Creates a duration of `secs` whole seconds.
    pub fn from_secs(secs: u64) -> (d: Self)
        ensures
            d.total_nanos() == secs * 1_000_000_000,
            d.spec_secs() == secs,
            d.spec_subsec_nanos() == 0,
    {
        Self { secs, nanos: 0 }
    }

    /// Creates a duration of `millis` milliseconds.
    pub fn from_millis(millis: u64) -> (d: Self)
        ensures
            d.total_nanos() == millis * 1_000_000,
    {
        let secs = millis / 1000;
        let rem = millis % 1000;
        let nanos = (rem as u32) * 1_000_000;
        assert((secs as nat) * 1_000_000_000 + (rem as nat) * 1_000_000 == (millis as nat)
            * 1_000_000) by (nonlinear_arith)
            requires
                secs == millis / 1000,
                rem == millis % 1000,
        ;
        Self { secs, nanos }
    }

    /// Whole seconds.
    pub fn as_secs(&self) -> (r: u64)
        ensures
            r == self.spec_secs(),
    {
        self.secs
    }

    /// Sub-second nanoseconds.
    pub fn subsec_nanos(&self) -> (r: u32)
        ensures
            r == self.spec_subsec_nanos(),
            r < NANOS_PER_SEC,
    {
        proof { use_type_invariant(self); }
        self.nanos
    }

    /// Whether `self` is strictly shorter than `other`.
    pub fn is_shorter_than(&self, other: &Self) -> (r: bool)
        ensures
            r == (self.total_nanos() < other.total_nanos()),
    {
        proof {
            use_type_invariant(self);
            use_type_invariant(other);
            lemma_lex_order(self.secs, self.nanos, other.secs, other.nanos);
        }
        self.secs < other.secs || (self.secs == other.secs && self.nanos < other.nanos)
    }

    /// The shorter of two durations (the first one on a tie).
    pub fn min(self, other: Self) -> (r: Self)
        ensures
            r == (if other.total_nanos() < self.total_nanos() { other } else { self }),
            r == self || r == other,
            r.total_nanos() <= self.total_nanos(),
            r.total_nanos() <= other.total_nanos(),
    {
        if other.is_shorter_than(&self) {
            other
        } else {
            self
        }
    }

    /// `self - rhs`, or `None` when `rhs` is longer than `self`.
    pub fn checked_sub(self, rhs: Self) -> (r: Option<Self>)
        ensures
            r is Some <==> rhs.total_nanos() <= self.total_nanos(),
            r matches Some(d) ==> d == self.minus(rhs),
            r matches Some(d) ==> d.total_nanos() == self.total_nanos() - rhs.total_nanos(),
    {
        proof {
            use_type_invariant(self);
            use_type_invariant(rhs);
            lemma_lex_order(self.secs, self.nanos, rhs.secs, rhs.nanos);
            lemma_lex_order(rhs.secs, rhs.nanos, self.secs, self.nanos);
        }
        if self.is_shorter_than(&rhs) {
            return None;
        }
        if self.nanos >= rhs.nanos {
            let d = Self { secs: self.secs - rhs.secs, nanos: self.nanos - rhs.nanos };
            assert(d.total_nanos() == self.total_nanos() - rhs.total_nanos()) by (nonlinear_arith)
                requires
                    d.secs == self.secs - rhs.secs,
                    d.nanos == self.nanos - rhs.nanos,
                    d.total_nanos() == (d.secs as nat) * 1_000_000_000 + d.nanos as nat,
                    self.total_nanos() == (self.secs as nat) * 1_000_000_000 + self.nanos as nat,
                    rhs.total_nanos() == (rhs.secs as nat) * 1_000_000_000 + rhs.nanos as nat,
            ;
            Some(d)
        } else {
            let d = Self { secs: self.secs - rhs.secs - 1, nanos: self.nanos + NANOS_PER_SEC - rhs.nanos };
            assert(d.total_nanos() == self.total_nanos() - rhs.total_nanos()) by (nonlinear_arith)
                requires
                    d.secs == self.secs - rhs.secs - 1,
                    d.nanos == self.nanos + 1_000_000_000 - rhs.nanos,
                    d.total_nanos() == (d.secs as nat) * 1_000_000_000 + d.nanos as nat,
                    self.total_nanos() == (self.secs as nat) * 1_000_000_000 + self.nanos as nat,
                    rhs.total_nanos() == (rhs.secs as nat) * 1_000_000_000 + rhs.nanos as nat,
            ;
            Some(d)
        }
    }
}

/// What is left of `a` after `b` is as long as the difference of the two.
pub proof fn lemma_minus_total(a: Duration, b: Duration)
    requires
        a.spec_subsec_nanos() < NANOS_PER_SEC,
        b.total_nanos() <= a.total_nanos(),
    ensures
        a.minus(b).total_nanos() == a.total_nanos() - b.total_nanos(),
{
    let t: int = a.total_nanos() - b.total_nanos();
    assert(0 <= t <= (a.secs as int) * 1_000_000_000 + a.nanos as int);
    assert(t / 1_000_000_000 <= a.secs as int) by (nonlinear_arith)
        requires
            0 <= t <= (a.secs as int) * 1_000_000_000 + a.nanos as int,
            a.nanos < 1_000_000_000,
    ;
    assert(t == (t / 1_000_000_000) * 1_000_000_000 + t % 1_000_000_000) by (nonlinear_arith)
        requires
            t >= 0,
    ;
    assert(0 <= t % 1_000_000_000 < 1_000_000_000) by (nonlinear_arith)
        requires
            t >= 0,
    ;
    assert(t / 1_000_000_000 >= 0) by (nonlinear_arith)
        requires
            t >= 0,
    ;
    let m = a.minus(b);
    assert(m.secs as int == t / 1_000_000_000);
    assert(m.nanos as int == t % 1_000_000_000);
}

/// Comparing `(secs, nanos)` pairs lexicographically compares their lengths,
/// as long as both sub-second parts are below one second.
pub proof fn lemma_lex_order(s1: u64, n1: u32, s2: u64, n2: u32)
    requires
        n1 < NANOS_PER_SEC,
        n2 < NANOS_PER_SEC,
    ensures
        ((s1 as nat) * 1_000_000_000 + (n1 as nat) < (s2 as nat) * 1_000_000_000 + n2 as nat) <==> (
        s1 < s2 || (s1 == s2 && n1 < n2)),
{
    assert(((s1 as nat) * 1_000_000_000 + (n1 as nat) < (s2 as nat) * 1_000_000_000 + n2 as nat)
        <==> (s1 < s2 || (s1 == s2 && n1 < n2))) by (nonlinear_arith)
        requires
            n1 < 1_000_000_000,
            n2 < 1_000_000_000,
    ;
}

} // verus!
