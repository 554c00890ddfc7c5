//! Observers of a test run, notified of its events.

use vstd::prelude::*;

use crate::event::{Cucumber, Event, Retries};

verus! {

/// What an observer is told about the scenario an event belongs to.
#[derive(Debug)]
pub struct ObservationContext {
    /// Identifier of the scenario run, if any.
    pub scenario_id: Option<u64>,
    /// Name of the feature.
    pub feature_name: String,
    /// Name of the rule, if any.
    pub rule_name: Option<String>,
    /// Name of the scenario.
    pub scenario_name: String,
    /// Retries of the scenario, if it is retried.
    pub retry_info: Option<Retries>,
    /// Tags of the scenario.
    pub tags: Vec<String>,
    /// When the event was observed.
    pub timestamp: std::time::Instant,
}

/// Observer of the events of a run, for users of this library to implement.
///
/// An observer that keeps count of the events it is told of says so with
/// `counts_events`; its count is then `events_seen`, and each call of
/// `on_event` raises it by one. An observer that keeps no count (the
/// default) promises nothing.
pub trait TestObserver<W> {
    /// Whether this observer keeps count of the events it is told of; by
    /// default it does not.
    open spec fn counts_events(&self) -> bool {
        false
    }

    /// How many events this observer has been told of, if it keeps count.
    open spec fn events_seen(&self) -> nat {
        0
    }

    /// Called when an event occurs.
    fn on_event(&mut self, event: &Event<Cucumber<W>>, context: &ObservationContext)
        ensures
            old(self).counts_events() ==> final(self).counts_events()
                && final(self).events_seen() == old(self).events_seen() + 1;

    /// Called when the run starts.
    fn on_start(&mut self) {
    }

    /// Called when the run finishes.
    fn on_finish(&mut self) {
    }
}

/// Observer that ignores every event.
#[derive(Debug)]
pub struct NullObserver;

impl<W> TestObserver<W> for NullObserver {
    fn on_event(&mut self, event: &Event<Cucumber<W>>, context: &ObservationContext) {
    }
}

/// Appends `x` to `v`, which grows by one and keeps what it held. Kept
/// generic: a `push` written directly on a vector of boxed trait objects
/// gives Verus no facts about the result.
fn append<T>(v: &mut Vec<T>, x: T)
    ensures
        final(v)@.len() == old(v)@.len() + 1,
        forall|i: int| 0 <= i < old(v)@.len() ==> final(v)@[i] == old(v)@[i],
{
    v.push(x);
}

/// The observers of a run; notifying is enabled once one is registered.
#[verifier::reject_recursive_types(W)]
pub struct ObserverRegistry<W> {
    observers: Vec<Box<dyn TestObserver<W>>>,
    enabled: bool,
}

impl<W> ObserverRegistry<W> {
    /// Whether notifying is enabled.
    pub closed spec fn is_enabled(&self) -> bool {
        self.enabled
    }

    /// Number of registered observers.
    pub closed spec fn observer_count(&self) -> nat {
        self.observers@.len()
    }

    /// Whether the observer at `i`, in registration order, keeps count.
    pub closed spec fn counts_at(&self, i: int) -> bool {
        self.observers@[i].counts_events()
    }

    /// The count of events of the observer at `i`, in registration order.
    pub closed spec fn seen_at(&self, i: int) -> nat {
        self.observers@[i].events_seen()
    }

    /// A registry with no observer, not notifying.
    pub fn new() -> (r: Self)
        ensures
            !r.is_enabled(),
            r.observer_count() == 0,
    {
        ObserverRegistry { observers: Vec::new(), enabled: false }
    }

    /// Registers an observer and enables notifying.
    pub fn register(&mut self, observer: Box<dyn TestObserver<W>>)
        ensures
            final(self).is_enabled(),
            final(self).observer_count() == old(self).observer_count() + 1,
            forall|i: int| 0 <= i < old(self).observer_count() ==> final(self).counts_at(i) == old(self).counts_at(i)
                && final(self).seen_at(i) == old(self).seen_at(i),
    {
        append(&mut self.observers, observer);
        self.enabled = true;
    }

    /// Tells every registered observer about `event`, when enabled.
    pub fn notify(&mut self, event: &Event<Cucumber<W>>, context: &ObservationContext)
        ensures
            final(self).is_enabled() == old(self).is_enabled(),
            final(self).observer_count() == old(self).observer_count(),
            !old(self).is_enabled() ==> *final(self) == *old(self),
            old(self).is_enabled() ==> forall|i: int| 0 <= i < old(self).observer_count() && old(self).counts_at(i)
                ==> final(self).counts_at(i) && final(self).seen_at(i) == old(self).seen_at(i) + 1,
    {
        if self.enabled {
            let n = self.observers.len();
            let mut i: usize = 0;
            while i < n
                invariant
                    n == self.observers@.len(),
                    n == old(self).observers@.len(),
                    i <= n,
                    self.enabled == old(self).enabled,
                    forall|j: int| 0 <= j < i && old(self).observers@[j].counts_events()
                        ==> self.observers@[j].counts_events()
                            && self.observers@[j].events_seen() == old(self).observers@[j].events_seen() + 1,
                    forall|j: int| i <= j < n ==> self.observers@[j] == old(self).observers@[j],
                decreases n - i,
            {
                self.observers[i].on_event(event, context);
                i += 1;
            }
        }
    }
}

} // verus!
