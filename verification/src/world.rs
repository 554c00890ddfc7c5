//! Worlds whose step functions are registered ahead of a run, and the
//! collection gathered from those registrations.

use vstd::prelude::*;

use crate::step::collection::{collection_from, registered_all, Registration};
use crate::step::Collection;

verus! {

/// A world whose step functions (of type `S`) are registered ahead of the
/// run, as the `given`, `when` and `then` attributes do.
pub trait WorldInit<S> {
    /// The registered `Given` step functions, in order.
    fn cucumber_given() -> Vec<Registration<S>>;

    /// The registered `When` step functions, in order.
    fn cucumber_when() -> Vec<Registration<S>>;

    /// The registered `Then` step functions, in order.
    fn cucumber_then() -> Vec<Registration<S>>;

    /// A collection holding every registered step function, each kind's
    /// registrations added in turn.
    fn collection() -> (c: Collection<S>)
        ensures
            exists|given: Vec<Registration<S>>, when: Vec<Registration<S>>, then_steps: Vec<Registration<S>>|
                #![trigger call_ensures(Self::cucumber_given, (), given), call_ensures(Self::cucumber_when, (), when), call_ensures(Self::cucumber_then, (), then_steps)]
                call_ensures(Self::cucumber_given, (), given)
                && call_ensures(Self::cucumber_when, (), when)
                && call_ensures(Self::cucumber_then, (), then_steps)
                && registered_all(Seq::empty(), c.given@, given@)
                && registered_all(Seq::empty(), c.when@, when@)
                && registered_all(Seq::empty(), c.then_steps@, then_steps@),
    {
        collection_from(Self::cucumber_given(), Self::cucumber_when(), Self::cucumber_then())
    }
}

} // verus!
