//! Storage of scenarios waiting to run, sorted by how they run (serially or
//! concurrently), and the choice of which of them run next.
//!
//! Features, rules and scenarios are referred to by plain numbers that the
//! caller assigns; the storage only orders and selects them.

use vstd::multiset::Multiset;
use vstd::prelude::*;

use super::cli_and_types::{
    instant_now, left_until_retry_spec, options_of, RetryOptions, RetryOptionsWithDeadline, ScenarioType,
};
use super::supporting_structures::{ScenarioId, ScenarioIds};
use crate::time::Duration;

verus! {

broadcast use vstd::seq_lib::group_to_multiset_ensures;

/// A scenario waiting in the storage.
#[derive(Clone, Copy, Debug)]
pub struct QueuedScenario {
    /// Identifier of this run of the scenario.
    pub id: ScenarioId,
    /// The feature the scenario belongs to.
    pub feature: usize,
    /// The rule the scenario belongs to, if any.
    pub rule: Option<usize>,
    /// The scenario.
    pub scenario: usize,
    /// Retry options, with the instant the retry delay counts from.
    pub retry: Option<RetryOptionsWithDeadline>,
}

/// A scenario handed to the storage.
#[derive(Clone, Copy, Debug)]
pub struct NewScenario {
    /// Identifier of this run of the scenario.
    pub id: ScenarioId,
    /// The feature the scenario belongs to.
    pub feature: usize,
    /// The rule the scenario belongs to, if any.
    pub rule: Option<usize>,
    /// The scenario.
    pub scenario: usize,
    /// How the scenario runs.
    pub ty: ScenarioType,
    /// Retry options.
    pub retry: Option<RetryOptions>,
}

/// A scenario chosen to run now.
#[derive(Clone, Copy, Debug)]
pub struct Runnable {
    /// Identifier of this run of the scenario.
    pub id: ScenarioId,
    /// The feature the scenario belongs to.
    pub feature: usize,
    /// The rule the scenario belongs to, if any.
    pub rule: Option<usize>,
    /// The scenario.
    pub scenario: usize,
    /// How the scenario runs.
    pub ty: ScenarioType,
    /// Retry options.
    pub retry: Option<RetryOptions>,
}

/// Whether this is the first run of a scenario (not a retry).
pub open spec fn is_initial_run(s: NewScenario) -> bool {
    match s.retry {
        None => true,
        Some(r) => r.retries.current == 0,
    }
}

/// Retry options with no delay counting yet.
pub open spec fn without_deadline_spec(r: RetryOptions) -> RetryOptionsWithDeadline {
    RetryOptionsWithDeadline {
        retries: r.retries,
        after: match r.after {
            Some(d) => Some((d, None::<std::time::Instant>)),
            None => None,
        },
    }
}

/// Retry options whose delay counts from `now`.
pub open spec fn with_deadline_spec(r: RetryOptions, now: std::time::Instant) -> RetryOptionsWithDeadline {
    RetryOptionsWithDeadline {
        retries: r.retries,
        after: match r.after {
            Some(d) => Some((d, Some(now))),
            None => None,
        },
    }
}

/// How a new scenario is stored: an initial run is ready at once, a retry
/// waits for its delay counted from `now`.
pub open spec fn queued_of(s: NewScenario, now: std::time::Instant) -> QueuedScenario {
    QueuedScenario {
        id: s.id,
        feature: s.feature,
        rule: s.rule,
        scenario: s.scenario,
        retry: match s.retry {
            None => None,
            Some(r) => if r.retries.current == 0 {
                Some(without_deadline_spec(r))
            } else {
                Some(with_deadline_spec(r, now))
            },
        },
    }
}

/// How a stored scenario is handed out.
pub open spec fn runnable_of(q: QueuedScenario, ty: ScenarioType) -> Runnable {
    Runnable {
        id: q.id,
        feature: q.feature,
        rule: q.rule,
        scenario: q.scenario,
        ty,
        retry: match q.retry {
            Some(r) => Some(options_of(r)),
            None => None,
        },
    }
}

/// The new scenarios of type `ty` that are initial runs, as stored.
pub open spec fn fresh_of(ss: Seq<NewScenario>, ty: ScenarioType, now: std::time::Instant) -> Seq<QueuedScenario>
    decreases ss.len(),
{
    if ss.len() == 0 {
        Seq::empty()
    } else {
        let init = fresh_of(ss.drop_last(), ty, now);
        let s = ss.last();
        if s.ty == ty && is_initial_run(s) { init.push(queued_of(s, now)) } else { init }
    }
}

/// The new scenarios of type `ty` that are retries, as stored, each one in
/// front of those before it.
pub open spec fn retried_of(ss: Seq<NewScenario>, ty: ScenarioType, now: std::time::Instant) -> Seq<QueuedScenario>
    decreases ss.len(),
{
    if ss.len() == 0 {
        Seq::empty()
    } else {
        let init = retried_of(ss.drop_last(), ty, now);
        let s = ss.last();
        if s.ty == ty && !is_initial_run(s) { seq![queued_of(s, now)] + init } else { init }
    }
}

/// Whether some new scenario is a serial initial run.
pub open spec fn has_fresh_serial(ss: Seq<NewScenario>) -> bool {
    exists|i: int| 0 <= i < ss.len() && (#[trigger] ss[i]).ty == ScenarioType::Serial && is_initial_run(ss[i])
}

/// The queue of type `ty` after inserting `ss` at `now`: retries go to the
/// front (the latest first); initial runs go in front of what was stored
/// when some new serial scenario is an initial run, and to the back
/// otherwise.
pub open spec fn inserted(old_queue: Seq<QueuedScenario>, ss: Seq<NewScenario>, ty: ScenarioType, now: std::time::Instant) -> Seq<QueuedScenario> {
    let base = retried_of(ss, ty, now) + old_queue;
    if has_fresh_serial(ss) {
        fresh_of(ss, ty, now) + base
    } else {
        base
            + fresh_of(ss, ty, now)
    }
}

/// The shorter of two waits (the first one on a tie).
pub open spec fn shorter(a: Duration, b: Duration) -> Duration {
    if b.total_nanos() < a.total_nanos() { b } else { a }
}

/// The shortest wait so far, after one more wait `w`.
pub open spec fn add_wait(m: Option<Duration>, w: Duration) -> Option<Duration> {
    match m {
        None => Some(w),
        Some(x) => Some(shorter(x, w)),
    }
}

/// Scanning the first `k` stored scenarios, where `waits[i]` is how long
/// scenario `i` still waits (`None`: ready), at most `limit` of them taken:
/// the ready ones are taken in order until the limit is reached; the others
/// stay, and the waits met are folded into the shortest wait, starting from
/// `m0`. Returns what was taken, what stays, the shortest wait and the
/// number taken.
pub open spec fn drain_prefix(
    items: Seq<QueuedScenario>,
    waits: Seq<Option<Duration>>,
    limit: Option<nat>,
    m0: Option<Duration>,
    k: nat,
) -> (Seq<QueuedScenario>, Seq<QueuedScenario>, Option<Duration>)
    decreases k,
{
    if k == 0 {
        (Seq::empty(), Seq::empty(), m0)
    } else {
        let (t, kept, m) = drain_prefix(items, waits, limit, m0, (k - 1) as nat);
        let it = items[k - 1];
        if limit matches Some(n) && t.len() >= n {
            (t, kept.push(it), m)
        } else {
            match waits[k - 1] {
                None => (t.push(it), kept, m),
                Some(w) => (t, kept.push(it), add_wait(m, w)),
            }
        }
    }
}

/// The whole scan of [`drain_prefix`].
pub open spec fn drain(
    items: Seq<QueuedScenario>,
    waits: Seq<Option<Duration>>,
    limit: Option<nat>,
    m0: Option<Duration>,
) -> (Seq<QueuedScenario>, Seq<QueuedScenario>, Option<Duration>) {
    drain_prefix(items, waits, limit, m0, items.len())
}

/// Number of ready scenarios (`None` waits) among `waits`.
pub open spec fn ready_count(waits: Seq<Option<Duration>>) -> nat
    decreases waits.len(),
{
    if waits.len() == 0 {
        0
    } else {
        ready_count(waits.drop_last()) + if waits.last() is None { 1nat } else { 0nat }
    }
}

/// Whether the scan reaches scenario `i`: without a limit always; with one,
/// while fewer ready scenarios than the limit came before it.
pub open spec fn reached(waits: Seq<Option<Duration>>, limit: Option<nat>, i: int) -> bool {
    match limit {
        None => true,
        Some(n) => ready_count(waits.take(i)) < n,
    }
}

proof fn lemma_drain_prefix_wait(
    items: Seq<QueuedScenario>,
    waits: Seq<Option<Duration>>,
    limit: Option<nat>,
    m0: Option<Duration>,
    k: nat,
)
    requires
        k <= items.len(),
        waits.len() == items.len(),
    ensures
        ({
            let (t, kept, m) = drain_prefix(items, waits, limit, m0, k);
            &&& t.len() == match limit {
                None => ready_count(waits.take(k as int)),
                Some(n) => if ready_count(waits.take(k as int)) < n { ready_count(waits.take(k as int)) } else { n },
            }
            &&& m0 matches Some(y) ==> (m matches Some(x) && x.total_nanos() <= y.total_nanos())
            &&& forall|i: int| 0 <= i < k && reached(waits, limit, i) && #[trigger] waits[i] is Some
                ==> (m matches Some(x) && x.total_nanos() <= waits[i]->0.total_nanos())
            &&& m matches Some(x) ==> (m0 == Some(x) || exists|i: int| 0 <= i < k && reached(waits, limit, i) && #[trigger] waits[i] == Some(x))
            &&& m is None ==> m0 is None
        }),
    decreases k,
{
    if k > 0 {
        let j = k - 1;
        lemma_drain_prefix_wait(items, waits, limit, m0, (k - 1) as nat);
        assert(waits.take(k as int).drop_last() =~= waits.take(j as int));
        assert(waits.take(k as int).last() == waits[j as int]);
        let (t0, kept0, m1) = drain_prefix(items, waits, limit, m0, (k - 1) as nat);
        let full = limit matches Some(n) && t0.len() >= n;
        assert(full <==> !reached(waits, limit, j as int));
        let (t, kept, m) = drain_prefix(items, waits, limit, m0, k);
        if !full && waits[j as int] is Some {
            let w = waits[j as int]->0;
            assert(m == add_wait(m1, w));
            assert forall|i: int| 0 <= i < k && reached(waits, limit, i) && #[trigger] waits[i] is Some
                implies (m matches Some(x) && x.total_nanos() <= waits[i]->0.total_nanos()) by {}
            match m {
                Some(x) => {
                    if x == w {
                        assert(0 <= j < k && reached(waits, limit, j as int) && waits[j as int] == Some(x));
                    }
                },
                None => {},
            }
        }
    }
}

/// The shortest wait that a scan reports is one of the waits it met (or the
/// one it started from) and is no longer than any of them: the runner then
/// sleeps no longer than until the first waiting scenario is ready. It is
/// `None` only when the scan started without one and met no waiting
/// scenario.
pub proof fn lemma_drain_reports_shortest_wait(
    items: Seq<QueuedScenario>,
    waits: Seq<Option<Duration>>,
    limit: Option<nat>,
    m0: Option<Duration>,
)
    requires
        waits.len() == items.len(),
    ensures
        ({
            let m = drain(items, waits, limit, m0).2;
            &&& m0 matches Some(y) ==> (m matches Some(x) && x.total_nanos() <= y.total_nanos())
            &&& forall|i: int| 0 <= i < items.len() && reached(waits, limit, i) && #[trigger] waits[i] is Some
                ==> (m matches Some(x) && x.total_nanos() <= waits[i]->0.total_nanos())
            &&& m matches Some(x) ==> (m0 == Some(x) || exists|i: int| 0 <= i < items.len() && reached(waits, limit, i) && #[trigger] waits[i] == Some(x))
            &&& m is None ==> m0 is None
        }),
{
    lemma_drain_prefix_wait(items, waits, limit, m0, items.len());
}

/// When nothing is handed out, the wait that [`get_spec`] reports is the
/// shortest wait among all stored scenarios, serial and concurrent: it is
/// one of them and no longer than any.
pub proof fn lemma_get_waits_for_the_first_ready(
    serial: Seq<QueuedScenario>,
    serial_waits: Seq<Option<Duration>>,
    concurrent: Seq<QueuedScenario>,
    concurrent_waits: Seq<Option<Duration>>,
    max: Option<usize>,
)
    requires
        serial_waits.len() == serial.len(),
        concurrent_waits.len() == concurrent.len(),
        max != Some(0usize),
        get_spec(serial, serial_waits, concurrent, concurrent_waits, max).0.len() == 0,
    ensures
        ({
            let d = get_spec(serial, serial_waits, concurrent, concurrent_waits, max).3;
            &&& forall|i: int| 0 <= i < serial.len() && #[trigger] serial_waits[i] is Some
                ==> (d matches Some(x) && x.total_nanos() <= serial_waits[i]->0.total_nanos())
            &&& forall|i: int| 0 <= i < concurrent.len() && #[trigger] concurrent_waits[i] is Some
                ==> (d matches Some(x) && x.total_nanos() <= concurrent_waits[i]->0.total_nanos())
            &&& d matches Some(x) ==> ((exists|i: int| 0 <= i < serial.len() && #[trigger] serial_waits[i] == Some(x))
                || (exists|i: int| 0 <= i < concurrent.len() && #[trigger] concurrent_waits[i] == Some(x)))
        }),
{
    let (st, sk, sm) = drain(serial, serial_waits, Some(1), None);
    lemma_drain_prefix_wait(serial, serial_waits, Some(1), None, serial.len() as nat);
    assert(serial_waits.take(serial.len() as int) =~= serial_waits);
    assert(st.len() == 0);
    let lim = match max { Some(n) => Some(n as nat), None => None };
    let (ct, ck, cm) = drain(concurrent, concurrent_waits, lim, sm);
    lemma_drain_prefix_wait(concurrent, concurrent_waits, lim, sm, concurrent.len() as nat);
    assert(concurrent_waits.take(concurrent.len() as int) =~= concurrent_waits);
    assert(runnables(ct, ScenarioType::Concurrent).len() == ct.len());
    assert(ct.len() == 0);
    // nothing ready was met, so every scenario was reached
    lemma_ready_count_zero_prefixes(serial_waits);
    lemma_ready_count_zero_prefixes(concurrent_waits);
    assert forall|i: int| 0 <= i < serial.len() implies reached(serial_waits, Some(1nat), i) by {}
    assert forall|i: int| 0 <= i < concurrent.len() implies reached(concurrent_waits, lim, i) by {
        match lim {
            Some(n) => {
                assert(n > 0);
            },
            None => {},
        }
    }
}

/// When no scenario is ready, no prefix holds a ready one either.
proof fn lemma_ready_count_zero_prefixes(waits: Seq<Option<Duration>>)
    ensures
        ready_count(waits) == 0 ==> forall|i: int| 0 <= i <= waits.len() ==> #[trigger] ready_count(waits.take(i)) == 0,
    decreases waits.len(),
{
    if waits.len() > 0 && ready_count(waits) == 0 {
        let init = waits.drop_last();
        lemma_ready_count_zero_prefixes(init);
        assert forall|i: int| 0 <= i <= waits.len() implies #[trigger] ready_count(waits.take(i)) == 0 by {
            if i < waits.len() {
                assert(waits.take(i) =~= init.take(i));
            } else {
                assert(waits.take(i) =~= waits);
            }
        }
    }
}

/// How stored scenarios are handed out as runnable.
pub open spec fn runnables(qs: Seq<QueuedScenario>, ty: ScenarioType) -> Seq<Runnable> {
    qs.map_values(|q: QueuedScenario| runnable_of(q, ty))
}

/// What [`Features::get_with_waits`] hands out and keeps: with no room
/// (`max == Some(0)`) nothing; otherwise the first ready serial scenario if
/// there is one, else the ready concurrent ones, at most `max` of them; with
/// the shortest wait of the waiting scenarios scanned.
pub open spec fn get_spec(
    serial: Seq<QueuedScenario>,
    serial_waits: Seq<Option<Duration>>,
    concurrent: Seq<QueuedScenario>,
    concurrent_waits: Seq<Option<Duration>>,
    max: Option<usize>,
) -> (Seq<Runnable>, Seq<QueuedScenario>, Seq<QueuedScenario>, Option<Duration>) {
    if max == Some(0usize) {
        (Seq::empty(), serial, concurrent, None)
    } else {
        let (st, sk, sm) = drain(serial, serial_waits, Some(1), None);
        if st.len() > 0 {
            (runnables(st, ScenarioType::Serial), sk, concurrent, sm)
        } else {
            let lim = match max { Some(n) => Some(n as nat), None => None };
            let (ct, ck, cm) = drain(concurrent, concurrent_waits, lim, sm);
            (runnables(ct, ScenarioType::Concurrent), sk, ck, cm)
        }
    }
}

/// Storage of the scenarios left to run.
#[derive(Debug)]
pub struct Features {
    serial: Vec<QueuedScenario>,
    concurrent: Vec<QueuedScenario>,
    finished: bool,
    ids: ScenarioIds,
}

/// Shortest-wait folding of one more wait.
fn fold_wait(m: Option<Duration>, w: Duration) -> (r: Option<Duration>)
    ensures
        r == add_wait(m, w),
{
    match m {
        None => Some(w),
        Some(x) => Some(x.min(w)),
    }
}

/// Removes from `items` the ready scenarios, in order, at most `limit` of
/// them, returning them with the shortest wait met.
fn drain_ready(
    items: &mut Vec<QueuedScenario>,
    waits: &Vec<Option<Duration>>,
    limit: Option<usize>,
    m0: Option<Duration>,
) -> (r: (Vec<QueuedScenario>, Option<Duration>))
    requires
        waits@.len() == old(items)@.len(),
    ensures
        ({
            let lim = match limit { Some(n) => Some(n as nat), None => None };
            let d = drain(old(items)@, waits@, lim, m0);
            &&& r.0@ == d.0
            &&& final(items)@ == d.1
            &&& r.1 == d.2
        }),
{
    let ghost lim = match limit { Some(n) => Some(n as nat), None => None };
    let ghost orig = items@;
    let n = items.len();
    let mut taken: Vec<QueuedScenario> = Vec::new();
    let mut kept: Vec<QueuedScenario> = Vec::new();
    let mut m = m0;
    let mut i: usize = 0;
    while i < n
        invariant
            n == orig.len(),
            waits@.len() == orig.len(),
            items@ == orig,
            i <= n,
            drain_prefix(orig, waits@, lim, m0, i as nat) == (taken@, kept@, m),
            lim == match limit { Some(n) => Some(n as nat), None => None::<nat> },
        decreases n - i,
    {
        let it = items[i];
        let full = match limit {
            Some(c) => taken.len() >= c,
            None => false,
        };
        if full {
            kept.push(it);
        } else {
            match waits[i] {
                None => {
                    taken.push(it);
                },
                Some(w) => {
                    kept.push(it);
                    m = fold_wait(m, w);
                },
            }
        }
        i += 1;
    }
    *items = kept;
    (taken, m)
}

/// Converts stored scenarios into runnable ones of type `ty`.
fn to_runnables(qs: Vec<QueuedScenario>, ty: ScenarioType) -> (r: Vec<Runnable>)
    ensures
        r@ == runnables(qs@, ty),
{
    let mut r: Vec<Runnable> = Vec::new();
    let mut i: usize = 0;
    while i < qs.len()
        invariant
            i <= qs@.len(),
            r@ == runnables(qs@.take(i as int), ty),
        decreases qs.len() - i,
    {
        let q = qs[i];
        let retry = match q.retry {
            Some(o) => Some(RetryOptions::from(o)),
            None => None,
        };
        r.push(Runnable { id: q.id, feature: q.feature, rule: q.rule, scenario: q.scenario, ty, retry });
        proof {
            assert(qs@.take(i + 1) == qs@.take(i as int).push(q));
            assert(r@ =~= runnables(qs@.take(i + 1), ty));
        }
        i += 1;
    }
    assert(qs@.take(qs@.len() as int) == qs@);
    r
}

/// `waits` are how long each of `items` still waits, on some reading of
/// the clock: a scenario without retry options is ready, and one with them
/// waits what is left of its delay after some elapsed time.
pub open spec fn waits_fit(items: Seq<QueuedScenario>, waits: Seq<Option<Duration>>) -> bool {
    &&& waits.len() == items.len()
    &&& forall|i: int| 0 <= i < items.len() ==> match (#[trigger] items[i]).retry {
        None => waits[i] is None,
        Some(o) => exists|e: Duration| waits[i] == #[trigger] left_until_retry_spec(o, e),
    }
}

/// Where no scenario has retry options, every scenario is ready, whatever
/// the clock reads.
pub proof fn lemma_ready_without_retries(items: Seq<QueuedScenario>, waits: Seq<Option<Duration>>)
    requires
        waits_fit(items, waits),
        forall|i: int| 0 <= i < items.len() ==> (#[trigger] items[i]).retry is None,
    ensures
        waits == Seq::new(items.len(), |i: int| None::<Duration>),
{
    assert forall|i: int| 0 <= i < items.len() implies waits[i] is None by {
        assert(items[i].retry is None);
    }
    assert(waits =~= Seq::new(items.len(), |i: int| None::<Duration>));
}

/// How long each stored scenario still waits, read on the clock now.
fn waits_of(items: &Vec<QueuedScenario>) -> (r: Vec<Option<Duration>>)
    ensures
        waits_fit(items@, r@),
{
    let mut r: Vec<Option<Duration>> = Vec::new();
    let mut i: usize = 0;
    while i < items.len()
        invariant
            i <= items@.len(),
            r@.len() == i,
            forall|j: int| 0 <= j < i ==> match (#[trigger] items@[j]).retry {
                None => r@[j] is None,
                Some(o) => exists|e: Duration| r@[j] == #[trigger] left_until_retry_spec(o, e),
            },
        decreases items.len() - i,
    {
        let w = match &items[i].retry {
            Some(o) => o.left_until_retry(),
            None => None,
        };
        r.push(w);
        i += 1;
    }
    r
}

impl Features {
    /// Serial scenarios, in the order they will be considered.
    pub closed spec fn serial_queue(&self) -> Seq<QueuedScenario> {
        self.serial@
    }

    /// Concurrent scenarios, in the order they will be considered.
    pub closed spec fn concurrent_queue(&self) -> Seq<QueuedScenario> {
        self.concurrent@
    }

    /// Whether no more features will be inserted.
    pub closed spec fn is_done(&self) -> bool {
        self.finished
    }

    /// The identifier the next inserted scenario gets.
    pub closed spec fn next_id(&self) -> u64 {
        self.ids.next_id()
    }

    /// An empty storage, still accepting features.
    pub fn new() -> (f: Self)
        ensures
            f.serial_queue().len() == 0,
            f.concurrent_queue().len() == 0,
            !f.is_done(),
            f.next_id() == 0,
    {
        Features { serial: Vec::new(), concurrent: Vec::new(), finished: false, ids: ScenarioIds::new() }
    }

    /// Stores new scenarios, retries waiting for their delay from `now`.
    pub fn insert_scenarios(&mut self, scenarios: Vec<NewScenario>, now: std::time::Instant)
        ensures
            final(self).serial_queue() == inserted(old(self).serial_queue(), scenarios@, ScenarioType::Serial, now),
            final(self).concurrent_queue() == inserted(old(self).concurrent_queue(), scenarios@, ScenarioType::Concurrent, now),
            final(self).is_done() == old(self).is_done(),
            final(self).next_id() == old(self).next_id(),
    {
        let mut fresh_serial: Vec<QueuedScenario> = Vec::new();
        let mut fresh_concurrent: Vec<QueuedScenario> = Vec::new();
        let mut retried_serial: Vec<QueuedScenario> = Vec::new();
        let mut retried_concurrent: Vec<QueuedScenario> = Vec::new();
        let mut any_fresh_serial = false;
        let mut i: usize = 0;
        while i < scenarios.len()
            invariant
                i <= scenarios@.len(),
                fresh_serial@ == fresh_of(scenarios@.take(i as int), ScenarioType::Serial, now),
                fresh_concurrent@ == fresh_of(scenarios@.take(i as int), ScenarioType::Concurrent, now),
                retried_serial@ == retried_of(scenarios@.take(i as int), ScenarioType::Serial, now),
                retried_concurrent@ == retried_of(scenarios@.take(i as int), ScenarioType::Concurrent, now),
                any_fresh_serial == has_fresh_serial(scenarios@.take(i as int)),
            decreases scenarios.len() - i,
        {
            let s = scenarios[i];
            let initial = match s.retry {
                None => true,
                Some(r) => r.retries.current == 0,
            };
            let retry = match s.retry {
                None => None,
                Some(r) => if r.retries.current == 0 {
                    Some(r.without_deadline())
                } else {
                    Some(r.with_deadline(now))
                },
            };
            let q = QueuedScenario { id: s.id, feature: s.feature, rule: s.rule, scenario: s.scenario, retry };
            assert(q == queued_of(s, now));
            let ghost pre = scenarios@.take(i as int);
            let ghost post = scenarios@.take(i + 1);
            assert(post.drop_last() == pre);
            assert(post.last() == s);
            match s.ty {
                ScenarioType::Serial => {
                    if initial {
                        fresh_serial.push(q);
                        any_fresh_serial = true;
                    } else {
                        retried_serial.insert(0, q);
                    }
                },
                ScenarioType::Concurrent => {
                    if initial {
                        fresh_concurrent.push(q);
                    } else {
                        retried_concurrent.insert(0, q);
                    }
                },
            }
            proof {
                if s.ty == ScenarioType::Serial && initial {
                    assert(post[i as int] == s);
                } else {
                    if has_fresh_serial(post) {
                        let j = choose|j: int| 0 <= j < post.len() && (#[trigger] post[j]).ty == ScenarioType::Serial
                            && is_initial_run(post[j]);
                        assert(j < i);
                        assert(pre[j] == post[j]);
                    }
                }
                if has_fresh_serial(pre) {
                    let j = choose|j: int| 0 <= j < pre.len() && (#[trigger] pre[j]).ty == ScenarioType::Serial
                        && is_initial_run(pre[j]);
                    assert(post[j] == pre[j]);
                }
                assert(retried_serial@ =~= retried_of(post, ScenarioType::Serial, now));
                assert(retried_concurrent@ =~= retried_of(post, ScenarioType::Concurrent, now));
            }
            i += 1;
        }
        assert(scenarios@.take(scenarios@.len() as int) == scenarios@);
        let mut serial = retried_serial;
        serial.append(&mut self.serial);
        let mut concurrent = retried_concurrent;
        concurrent.append(&mut self.concurrent);
        if any_fresh_serial {
            fresh_serial.append(&mut serial);
            fresh_concurrent.append(&mut concurrent);
            self.serial = fresh_serial;
            self.concurrent = fresh_concurrent;
        } else {
            serial.append(&mut fresh_serial);
            concurrent.append(&mut fresh_concurrent);
            self.serial = serial;
            self.concurrent = concurrent;
        }
    }

    /// Stores the scenarios of a feature, each one given its rule, its type
    /// and its retry options; each gets the next identifier.
    pub fn insert(&mut self, feature: usize, scenarios: Vec<(Option<usize>, usize, ScenarioType, Option<RetryOptions>)>)
        ensures
            final(self).is_done() == old(self).is_done(),
            exists|news: Seq<NewScenario>, now: std::time::Instant| {
                &&& news.len() == scenarios@.len()
                &&& forall|i: int| 0 <= i < news.len() ==> {
                    &&& (#[trigger] news[i]).feature == feature
                    &&& news[i].rule == scenarios@[i].0
                    &&& news[i].scenario == scenarios@[i].1
                    &&& news[i].ty == scenarios@[i].2
                    &&& news[i].retry == scenarios@[i].3
                    &&& news[i].id.0 == (old(self).next_id() + i) % 0x1_0000_0000_0000_0000
                }
                &&& final(self).serial_queue() == inserted(old(self).serial_queue(), news, ScenarioType::Serial, now)
                &&& final(self).concurrent_queue() == inserted(old(self).concurrent_queue(), news, ScenarioType::Concurrent, now)
            },
    {
        let mut news: Vec<NewScenario> = Vec::new();
        let mut i: usize = 0;
        while i < scenarios.len()
            invariant
                i <= scenarios@.len(),
                news@.len() == i,
                self.ids.next_id() == (old(self).next_id() + i) % 0x1_0000_0000_0000_0000,
                self.serial@ == old(self).serial@,
                self.concurrent@ == old(self).concurrent@,
                self.finished == old(self).finished,
                forall|j: int| 0 <= j < i ==> {
                    &&& (#[trigger] news@[j]).feature == feature
                    &&& news@[j].rule == scenarios@[j].0
                    &&& news@[j].scenario == scenarios@[j].1
                    &&& news@[j].ty == scenarios@[j].2
                    &&& news@[j].retry == scenarios@[j].3
                    &&& news@[j].id.0 == (old(self).next_id() + j) % 0x1_0000_0000_0000_0000
                },
            decreases scenarios.len() - i,
        {
            let (rule, scenario, ty, retry) = scenarios[i];
            let id = ScenarioId::new(&mut self.ids);
            news.push(NewScenario { id, feature, rule, scenario, ty, retry });
            proof {
                vstd::arithmetic::div_mod::lemma_add_mod_noop(old(self).next_id() + i, 1, 0x1_0000_0000_0000_0000);
            }
            i += 1;
        }
        let now = instant_now();
        let ghost news_seq = news@;
        let ghost before = *self;
        self.insert_scenarios(news, now);
        assert(before.serial_queue() == old(self).serial_queue());
        assert(before.concurrent_queue() == old(self).concurrent_queue());
        assert(self.serial_queue() == inserted(old(self).serial_queue(), news_seq, ScenarioType::Serial, now));
        assert(self.concurrent_queue() == inserted(old(self).concurrent_queue(), news_seq, ScenarioType::Concurrent, now));
        assert(news_seq.len() == scenarios@.len());
    }

    /// Stores a scenario to be retried; it gets the next identifier.
    pub fn insert_retried_scenario(
        &mut self,
        feature: usize,
        rule: Option<usize>,
        scenario: usize,
        ty: ScenarioType,
        retries: Option<RetryOptions>,
    )
        ensures
            final(self).is_done() == old(self).is_done(),
            final(self).next_id() == (old(self).next_id() + 1) % 0x1_0000_0000_0000_0000,
            exists|now: std::time::Instant| {
                &&& final(self).serial_queue() == #[trigger] inserted(
                    old(self).serial_queue(),
                    seq![NewScenario { id: ScenarioId(old(self).next_id()), feature, rule, scenario, ty, retry: retries }],
                    ScenarioType::Serial,
                    now,
                )
                &&& final(self).concurrent_queue() == inserted(
                    old(self).concurrent_queue(),
                    seq![NewScenario { id: ScenarioId(old(self).next_id()), feature, rule, scenario, ty, retry: retries }],
                    ScenarioType::Concurrent,
                    now,
                )
            },
    {
        let id = ScenarioId::new(&mut self.ids);
        let now = instant_now();
        let new = NewScenario { id, feature, rule, scenario, ty, retry: retries };
        let mut v = Vec::new();
        v.push(new);
        assert(v@ == seq![new]);
        assert(new == NewScenario { id: ScenarioId(old(self).next_id()), feature, rule, scenario, ty, retry: retries });
        let ghost before = *self;
        self.insert_scenarios(v, now);
        assert(before.serial_queue() == old(self).serial_queue());
        assert(before.concurrent_queue() == old(self).concurrent_queue());
        assert(self.serial_queue() == inserted(old(self).serial_queue(), seq![new], ScenarioType::Serial, now));
        assert(self.concurrent_queue() == inserted(old(self).concurrent_queue(), seq![new], ScenarioType::Concurrent, now));
    }

    /// Hands out the scenarios to run now, given how long each stored
    /// scenario still waits (`None`: ready), at most `max` concurrent ones,
    /// and the shortest wait among the waiting scenarios scanned.
    pub fn get_with_waits(
        &mut self,
        max_concurrent_scenarios: Option<usize>,
        serial_waits: &Vec<Option<Duration>>,
        concurrent_waits: &Vec<Option<Duration>>,
    ) -> (r: (Vec<Runnable>, Option<Duration>))
        requires
            serial_waits@.len() == old(self).serial_queue().len(),
            concurrent_waits@.len() == old(self).concurrent_queue().len(),
        ensures
            ({
                let g = get_spec(
                    old(self).serial_queue(),
                    serial_waits@,
                    old(self).concurrent_queue(),
                    concurrent_waits@,
                    max_concurrent_scenarios,
                );
                &&& r.0@ == g.0
                &&& final(self).serial_queue() == g.1
                &&& final(self).concurrent_queue() == g.2
                &&& r.1 == g.3
            }),
            final(self).is_done() == old(self).is_done(),
            final(self).next_id() == old(self).next_id(),
    {
        if max_concurrent_scenarios == Some(0usize) {
            return (Vec::new(), None);
        }
        let (st, sm) = drain_ready(&mut self.serial, serial_waits, Some(1), None);
        if st.len() > 0 {
            return (to_runnables(st, ScenarioType::Serial), sm);
        }
        let (ct, cm) = drain_ready(&mut self.concurrent, concurrent_waits, max_concurrent_scenarios, sm);
        (to_runnables(ct, ScenarioType::Concurrent), cm)
    }

    /// Hands out the scenarios to run now, reading on the clock how long
    /// retried scenarios still wait; see [`Features::get_with_waits`]. A
    /// scenario without retry options is always ready.
    pub fn get(&mut self, max_concurrent_scenarios: Option<usize>) -> (r: (Vec<Runnable>, Option<Duration>))
        ensures
            exists|sw: Seq<Option<Duration>>, cw: Seq<Option<Duration>>| {
                let g = #[trigger] get_spec(old(self).serial_queue(), sw, old(self).concurrent_queue(), cw, max_concurrent_scenarios);
                &&& waits_fit(old(self).serial_queue(), sw)
                &&& waits_fit(old(self).concurrent_queue(), cw)
                &&& r.0@ == g.0
                &&& final(self).serial_queue() == g.1
                &&& final(self).concurrent_queue() == g.2
                &&& r.1 == g.3
            },
            final(self).is_done() == old(self).is_done(),
            final(self).next_id() == old(self).next_id(),
    {
        let sw = waits_of(&self.serial);
        let cw = waits_of(&self.concurrent);
        self.get_with_waits(max_concurrent_scenarios, &sw, &cw)
    }

    /// Marks that no more features will be inserted.
    pub fn finish(&mut self)
        ensures
            final(self).is_done(),
            final(self).serial_queue() == old(self).serial_queue(),
            final(self).concurrent_queue() == old(self).concurrent_queue(),
            final(self).next_id() == old(self).next_id(),
    {
        self.finished = true;
    }

    /// Whether nothing is left to run: no more features will come, and
    /// either no scenario is stored or the rest is to be dropped (`fail_fast`).
    pub fn is_finished(&self, fail_fast: bool) -> (r: bool)
        ensures
            r == (self.is_done() && (fail_fast || (self.serial_queue().len() == 0
                && self.concurrent_queue().len() == 0))),
    {
        self.finished && (fail_fast || (self.serial.len() == 0 && self.concurrent.len() == 0))
    }
}

/// The stored scenarios [`get_spec`] hands out, before they are converted.
pub open spec fn get_taken(
    serial: Seq<QueuedScenario>,
    serial_waits: Seq<Option<Duration>>,
    concurrent: Seq<QueuedScenario>,
    concurrent_waits: Seq<Option<Duration>>,
    max: Option<usize>,
) -> Seq<QueuedScenario> {
    if max == Some(0usize) {
        Seq::empty()
    } else {
        let (st, sk, sm) = drain(serial, serial_waits, Some(1), None);
        if st.len() > 0 {
            st
        } else {
            let lim = match max { Some(n) => Some(n as nat), None => None };
            drain(concurrent, concurrent_waits, lim, sm).0
        }
    }
}

/// What scanning a prefix keeps and takes: nothing is lost or duplicated,
/// no more than `limit` are taken, everything taken was ready, and a ready
/// scenario is not passed over while there is room.
proof fn lemma_drain_prefix(
    items: Seq<QueuedScenario>,
    waits: Seq<Option<Duration>>,
    limit: Option<nat>,
    m0: Option<Duration>,
    k: nat,
)
    requires
        k <= items.len(),
        waits.len() == items.len(),
    ensures
        ({
            let (t, kept, m) = drain_prefix(items, waits, limit, m0, k);
            &&& t.to_multiset().add(kept.to_multiset()) =~= items.take(k as int).to_multiset()
            &&& t.len() + kept.len() == k
            &&& (limit matches Some(n) ==> t.len() <= n)
            &&& (forall|x: QueuedScenario| #[trigger] t.contains(x) ==> exists|j: int|
                0 <= j < k && items[j] == x && waits[j] is None)
            &&& ((limit != Some(0nat) && exists|j: int| 0 <= j < k && (#[trigger] waits[j]) is None) ==> t.len() > 0)
        }),
    decreases k,
{
    if k > 0 {
        lemma_drain_prefix(items, waits, limit, m0, (k - 1) as nat);
        let (t0, k0, m0_) = drain_prefix(items, waits, limit, m0, (k - 1) as nat);
        let it = items[k - 1];
        assert(items.take(k as int) =~= items.take(k - 1).push(it));
        let (t, kept, m) = drain_prefix(items, waits, limit, m0, k);
        assert forall|x: QueuedScenario| #[trigger] t.contains(x) implies exists|j: int|
            0 <= j < k && items[j] == x && waits[j] is None by {
            if t0.contains(x) {
                let j = choose|j: int| 0 <= j < k - 1 && items[j] == x && waits[j] is None;
                assert(0 <= j < k && items[j] == x && waits[j] is None);
            } else {
                assert(t == t0.push(it));
                let i = choose|i: int| 0 <= i < t.len() && t[i] == x;
                assert(i == t0.len());
                assert(items[k - 1] == x && waits[k - 1] is None);
            }
        }
        if limit != Some(0nat) && exists|j: int| 0 <= j < k && (#[trigger] waits[j]) is None {
            if !(exists|j: int| 0 <= j < k - 1 && (#[trigger] waits[j]) is None) {
                let j = choose|j: int| 0 <= j < k && (#[trigger] waits[j]) is None;
                assert(j == k - 1);
            }
        }
    } else {
        assert(items.take(0) =~= Seq::<QueuedScenario>::empty());
    }
}

/// Choosing what runs next loses and duplicates nothing: the scenarios
/// handed out and those kept are exactly those stored before.
pub proof fn lemma_get_keeps_every_scenario(
    serial: Seq<QueuedScenario>,
    serial_waits: Seq<Option<Duration>>,
    concurrent: Seq<QueuedScenario>,
    concurrent_waits: Seq<Option<Duration>>,
    max: Option<usize>,
)
    requires
        serial_waits.len() == serial.len(),
        concurrent_waits.len() == concurrent.len(),
    ensures
        ({
            let g = get_spec(serial, serial_waits, concurrent, concurrent_waits, max);
            let t = get_taken(serial, serial_waits, concurrent, concurrent_waits, max);
            &&& serial.to_multiset().add(concurrent.to_multiset())
                =~= t.to_multiset().add(g.1.to_multiset()).add(g.2.to_multiset())
            &&& g.0.len() == t.len()
        }),
{
    lemma_drain_prefix(serial, serial_waits, Some(1), None, serial.len());
    assert(serial.take(serial.len() as int) == serial);
    let (st, sk, sm) = drain(serial, serial_waits, Some(1), None);
    let lim = match max { Some(n) => Some(n as nat), None => None };
    lemma_drain_prefix(concurrent, concurrent_waits, lim, sm, concurrent.len());
    assert(concurrent.take(concurrent.len() as int) == concurrent);
    if max == Some(0usize) {
        assert(Seq::<QueuedScenario>::empty().to_multiset() =~= Multiset::empty());
    } else if st.len() > 0 {
    } else {
        assert(st.to_multiset() =~= Multiset::empty());
    }
}

/// At most one serial scenario runs at a time, never more than
/// `max_concurrent_scenarios` concurrent ones, nothing with no room, and
/// only scenarios whose retry delay has passed.
pub proof fn lemma_get_respects_limits(
    serial: Seq<QueuedScenario>,
    serial_waits: Seq<Option<Duration>>,
    concurrent: Seq<QueuedScenario>,
    concurrent_waits: Seq<Option<Duration>>,
    max: Option<usize>,
)
    requires
        serial_waits.len() == serial.len(),
        concurrent_waits.len() == concurrent.len(),
    ensures
        ({
            let g = get_spec(serial, serial_waits, concurrent, concurrent_waits, max);
            let t = get_taken(serial, serial_waits, concurrent, concurrent_waits, max);
            &&& max == Some(0usize) ==> g.0.len() == 0
            &&& forall|i: int| 0 <= i < g.0.len() && (#[trigger] g.0[i]).ty == ScenarioType::Serial ==> g.0.len() == 1
            &&& (max matches Some(n) ==> g.0.len() <= n)
            &&& forall|x: QueuedScenario| #[trigger] t.contains(x) ==> (exists|j: int|
                0 <= j < serial.len() && serial[j] == x && serial_waits[j] is None) || (exists|j: int|
                0 <= j < concurrent.len() && concurrent[j] == x && concurrent_waits[j] is None)
        }),
{
    lemma_drain_prefix(serial, serial_waits, Some(1), None, serial.len());
    let (st, sk, sm) = drain(serial, serial_waits, Some(1), None);
    let lim = match max { Some(n) => Some(n as nat), None => None };
    lemma_drain_prefix(concurrent, concurrent_waits, lim, sm, concurrent.len());
}

/// Serial scenarios go first: while a serial scenario is ready (and
/// there is room), the next scenario handed out is the first ready serial
/// one, alone.
pub proof fn lemma_get_serial_first(
    serial: Seq<QueuedScenario>,
    serial_waits: Seq<Option<Duration>>,
    concurrent: Seq<QueuedScenario>,
    concurrent_waits: Seq<Option<Duration>>,
    max: Option<usize>,
    j: int,
)
    requires
        serial_waits.len() == serial.len(),
        concurrent_waits.len() == concurrent.len(),
        max != Some(0usize),
        0 <= j < serial.len(),
        serial_waits[j] is None,
    ensures
        ({
            let g = get_spec(serial, serial_waits, concurrent, concurrent_waits, max);
            &&& g.0.len() == 1
            &&& g.0[0].ty == ScenarioType::Serial
            &&& g.2 == concurrent
        }),
{
    lemma_drain_prefix(serial, serial_waits, Some(1), None, serial.len());
    assert(serial_waits[j] is None);
}

} // verus!
