//! Step functions registered under the patterns they match, and the lookup
//! of the one a step matches.

use vstd::prelude::*;

use super::captures::{
    capture_locations, capture_names, capture_spans, captures_read, group_text, locations_get,
    locations_len, locations_regex, regex_capture_names, regex_captures, slice_bytes, spans_fit,
};
use super::context::{captures_view, CaptureName, Context};
use super::error::{match_order, match_view, matches_view, sort_matches, AmbiguousMatchError};
use super::hashable_regex::{lemma_view_is_source, HashableRegex};
use super::location::Location;
use crate::feature::copy_opt_string;
use crate::gherkin::{self, StepType};
use crate::text::str_eq;

verus! {

/// A registered step function: its pattern, its location and the function.
pub type Entry<S> = (HashableRegex, Option<Location>, S);

/// A location reduced to plain values: path text, line and column.
pub open spec fn location_view(l: Option<Location>) -> Option<(Seq<char>, u32, u32)> {
    match l {
        Some(x) => Some((x.path@, x.line, x.column)),
        None => None,
    }
}

/// What identifies a registered step function: its pattern text and location.
pub open spec fn entry_key<S>(e: Entry<S>) -> (Seq<char>, Option<(Seq<char>, u32, u32)>) {
    (e.0@, location_view(e.1))
}

/// `i` is the first entry whose key is `key`.
pub open spec fn first_with_key<S>(entries: Seq<Entry<S>>, key: (Seq<char>, Option<(Seq<char>, u32, u32)>), i: int) -> bool {
    &&& 0 <= i < entries.len()
    &&& entry_key(entries[i]) == key
    &&& forall|j: int| 0 <= j < i ==> entry_key(#[trigger] entries[j]) != key
}

/// Some entry has the key `key`.
pub open spec fn has_key<S>(entries: Seq<Entry<S>>, key: (Seq<char>, Option<(Seq<char>, u32, u32)>)) -> bool {
    exists|i: int| 0 <= i < entries.len() && entry_key(#[trigger] entries[i]) == key
}

/// No two entries share a key.
pub open spec fn keys_distinct<S>(entries: Seq<Entry<S>>) -> bool {
    forall|i: int, j: int|
        0 <= i < j < entries.len() ==> entry_key(#[trigger] entries[i]) != entry_key(#[trigger] entries[j])
}

/// `new` is `old` after registering `step` under `regex` and `loc`: the
/// function of the entry with that key is replaced (its pattern and location
/// stay), or, when there is none, a new entry is appended.
pub open spec fn registered<S>(old: Seq<Entry<S>>, new: Seq<Entry<S>>, loc: Option<Location>, regex: ::regex::Regex, step: S) -> bool {
    let key = (super::hashable_regex::regex_source(regex), location_view(loc));
    if has_key(old, key) {
        exists|i: int| first_with_key(old, key, i) && new == old.update(i, (old[i].0, old[i].1, step))
    } else {
        &&& new.len() == old.len() + 1
        &&& new.take(old.len() as int) == old
        &&& new.last().0.re() == regex
        &&& new.last().1 == loc
        &&& new.last().2 == step
    }
}

/// The pattern of `e` matches `text`.
pub open spec fn is_hit<S>(e: Entry<S>, text: Seq<char>) -> bool {
    regex_captures(e.0.re(), text) is Some
}

/// Indices, in order, of the entries whose pattern matches `text`.
pub open spec fn hit_indices<S>(entries: Seq<Entry<S>>, text: Seq<char>) -> Seq<int>
    decreases entries.len(),
{
    if entries.len() == 0 {
        Seq::empty()
    } else {
        let rest = hit_indices(entries.drop_last(), text);
        if is_hit(entries.last(), text) {
            rest.push(entries.len() - 1)
        } else {
            rest
        }
    }
}

/// Pattern text and location of the entries at `hits`.
pub open spec fn hit_matches<S>(entries: Seq<Entry<S>>, hits: Seq<int>) -> Seq<(Seq<char>, Option<Location>)> {
    hits.map_values(|j: int| (entries[j].0@, entries[j].1))
}

/// Name and text of each capture group: the names paired, in order, with the
/// text each span covers, as far as both go.
pub open spec fn captured(names: Seq<Option<Seq<char>>>, spans: Seq<Option<(usize, usize)>>, text: Seq<char>) -> Seq<(Option<Seq<char>>, Seq<char>)> {
    let n = if names.len() <= spans.len() { names.len() } else { spans.len() };
    Seq::new(n, |k: int| (names[k], group_text(text, spans[k])))
}

/// What [`Collection::find`] returns for a step whose text is `text`, among
/// `entries`.
pub open spec fn found<'a, S>(
    entries: Seq<Entry<S>>,
    step: gherkin::Step,
    r: Result<Option<(&'a S, ::regex::CaptureLocations, Option<Location>, Context)>, AmbiguousMatchError>,
) -> bool {
    let text = step.value@;
    let hits = hit_indices(entries, text);
    if hits.len() == 0 {
        r matches Ok(None)
    } else if hits.len() == 1 {
        let e = entries[hits[0]];
        let spans = regex_captures(e.0.re(), text).unwrap();
        r matches Ok(Some(t)) && {
            &&& *t.0 == e.2
            &&& capture_spans(t.1) == spans
            &&& locations_regex(t.1) == e.0.re()
            &&& t.2 == e.1
            &&& t.3.step@ == step@
            &&& captures_view(t.3.matches@) == captured(regex_capture_names(e.0.re()), spans, text)
        }
    } else {
        r matches Err(err) && {
            &&& matches_view(err.possible_matches@).to_multiset() == hit_matches(entries, hits).to_multiset()
            &&& forall|i: int, j: int|
                0 <= i < j < err.possible_matches@.len() ==> match_order(
                    match_view(err.possible_matches@[i]),
                    match_view(err.possible_matches@[j]),
                ) <= 0
        }
    }
}

proof fn lemma_hits_follow_patterns<S>(a: Seq<Entry<S>>, b: Seq<Entry<S>>, text: Seq<char>)
    requires
        a.len() == b.len(),
        forall|i: int| 0 <= i < a.len() ==> (#[trigger] a[i]).0 == b[i].0,
    ensures
        hit_indices(a, text) == hit_indices(b, text),
    decreases a.len(),
{
    if a.len() > 0 {
        lemma_hits_follow_patterns(a.drop_last(), b.drop_last(), text);
        assert(a.last().0 == b.last().0);
    }
}

/// Registering a function under a new pattern that matches `text`, among
/// functions none of which matches `text`, makes `text` match that function
/// alone: [`Collection::find`] then returns it.
pub proof fn lemma_new_pattern_is_found<S>(
    old: Seq<Entry<S>>,
    new: Seq<Entry<S>>,
    loc: Option<Location>,
    regex: ::regex::Regex,
    step: S,
    text: Seq<char>,
)
    requires
        registered(old, new, loc, regex, step),
        !has_key(old, (super::hashable_regex::regex_source(regex), location_view(loc))),
        hit_indices(old, text).len() == 0,
        regex_captures(regex, text) is Some,
    ensures
        hit_indices(new, text) == seq![old.len() as int],
        new[old.len() as int].2 == step,
        new[old.len() as int].1 == loc,
{
    assert(new.drop_last() =~= old);
}

/// Registering a function again under a pattern and location already
/// registered keeps the pattern, so the same functions match every text as
/// before.
pub proof fn lemma_reregistering_keeps_matches<S>(
    old: Seq<Entry<S>>,
    new: Seq<Entry<S>>,
    loc: Option<Location>,
    regex: ::regex::Regex,
    step: S,
    text: Seq<char>,
)
    requires
        registered(old, new, loc, regex, step),
        has_key(old, (super::hashable_regex::regex_source(regex), location_view(loc))),
    ensures
        hit_indices(new, text) == hit_indices(old, text),
{
    let key = (super::hashable_regex::regex_source(regex), location_view(loc));
    let i = choose|i: int| first_with_key(old, key, i) && new == old.update(i, (old[i].0, old[i].1, step));
    lemma_hits_follow_patterns(new, old, text);
}

/// Collection of step functions of type `S`, by step kind. Every function
/// is registered under the pattern it matches and its location.
#[derive(Clone, Debug)]
pub struct Collection<S> {
    /// `Given` step functions.
    pub given: Vec<Entry<S>>,
    /// `When` step functions.
    pub when: Vec<Entry<S>>,
    /// `Then` step functions.
    pub then_steps: Vec<Entry<S>>,
}

impl<S> Default for Collection<S> {
    fn default() -> (c: Self)
        ensures
            c.given@.len() == 0,
            c.when@.len() == 0,
            c.then_steps@.len() == 0,
    {
        Collection { given: Vec::new(), when: Vec::new(), then_steps: Vec::new() }
    }
}

fn same_location(a: &Option<Location>, b: &Option<Location>) -> (r: bool)
    ensures
        r == (location_view(*a) == location_view(*b)),
{
    match (a, b) {
        (None, None) => true,
        (Some(x), Some(y)) => str_eq(x.path, y.path) && x.line == y.line && x.column == y.column,
        _ => false,
    }
}

/// Registers `step` under `regex` and `loc` in `entries`, as [`registered`]
/// describes.
fn register<S>(entries: &mut Vec<Entry<S>>, loc: Option<Location>, regex: ::regex::Regex, step: S)
    ensures
        registered(old(entries)@, final(entries)@, loc, regex, step),
        keys_distinct(old(entries)@) ==> keys_distinct(final(entries)@),
{
    let ghost old_entries = entries@;
    let h = HashableRegex::new(regex);
    proof {
        lemma_view_is_source(&h);
    }
    let ghost key = (h@, location_view(loc));
    let n = entries.len();
    let mut i: usize = 0;
    while i < n
        invariant
            n == entries@.len(),
            entries@ == old_entries,
            old_entries == old(entries)@,
            i <= n,
            key == (h@, location_view(loc)),
            h.re() == regex,
            h@ == super::hashable_regex::regex_source(regex),
            forall|j: int| 0 <= j < i ==> entry_key(#[trigger] entries@[j]) != key,
        decreases n - i,
    {
        if entries[i].0 == h && same_location(&entries[i].1, &loc) {
            assert(first_with_key(old_entries, key, i as int));
            let e = entries.remove(i);
            entries.insert(i, (e.0, e.1, step));
            proof {
                assert(entries@ =~= old_entries.update(i as int, (old_entries[i as int].0, old_entries[i as int].1, step)));
                assert(has_key(old_entries, key));
                if keys_distinct(old_entries) {
                    assert forall|a: int, b: int| 0 <= a < b < entries@.len() implies
                        entry_key(#[trigger] entries@[a]) != entry_key(#[trigger] entries@[b]) by {
                        assert(entry_key(entries@[a]) == entry_key(old_entries[a]));
                        assert(entry_key(entries@[b]) == entry_key(old_entries[b]));
                    }
                }
            }
            return;
        }
        i += 1;
    }
    assert(!has_key(old_entries, key));
    entries.push((h, loc, step));
    proof {
        assert(entries@.take(n as int) =~= old_entries);
        if keys_distinct(old_entries) {
            assert forall|a: int, b: int| 0 <= a < b < entries@.len() implies
                entry_key(#[trigger] entries@[a]) != entry_key(#[trigger] entries@[b]) by {
                if b == n {
                    assert(entries@[a] == old_entries[a]);
                }
            }
        }
    }
}

/// A step function to register: its location, pattern and function.
pub type Registration<S> = (Option<Location>, ::regex::Regex, S);

/// `states` goes from `old` to `new`, each state after the previous one by
/// registering the next of `items`, as [`registered`] describes.
pub open spec fn registration_steps<S>(old: Seq<Entry<S>>, new: Seq<Entry<S>>, items: Seq<Registration<S>>, states: Seq<Seq<Entry<S>>>) -> bool {
    &&& states.len() == items.len() + 1
    &&& states[0] == old
    &&& states.last() == new
    &&& forall|i: int| 0 <= i < items.len() ==>
        registered(#[trigger] states[i], states[i + 1], items[i].0, items[i].1, items[i].2)
}

/// `new` is `old` after registering each of `items` in turn.
pub open spec fn registered_all<S>(old: Seq<Entry<S>>, new: Seq<Entry<S>>, items: Seq<Registration<S>>) -> bool {
    exists|states: Seq<Seq<Entry<S>>>| #[trigger] registration_steps(old, new, items, states)
}

/// Registers each of `items` in turn.
fn register_all<S>(entries: &mut Vec<Entry<S>>, items: Vec<Registration<S>>)
    ensures
        registered_all(old(entries)@, final(entries)@, items@),
{
    let ghost start = entries@;
    let ghost all = items@;
    let ghost mut states: Seq<Seq<Entry<S>>> = seq![start];
    let total = items.len();
    let mut rest = items;
    let mut k: usize = 0;
    while rest.len() > 0
        invariant
            start == old(entries)@,
            all.len() == total,
            all.len() == k + rest@.len(),
            rest@ == all.skip(k as int),
            registration_steps(start, entries@, all.take(k as int), states),
        decreases rest.len(),
    {
        let (loc, re, f) = rest.remove(0);
        let ghost before = entries@;
        register(entries, loc, re, f);
        proof {
            assert(all[k as int] == (loc, re, f));
            assert(rest@ =~= all.skip(k + 1));
            let old_states = states;
            states = states.push(entries@);
            let items = all.take(k + 1);
            assert forall|i: int| 0 <= i < items.len() implies
                registered(#[trigger] states[i], states[i + 1], items[i].0, items[i].1, items[i].2) by {
                if i < k {
                    assert(states[i] == old_states[i]);
                    assert(states[i + 1] == old_states[i + 1]);
                    assert(items[i] == all.take(k as int)[i]);
                }
            }
            assert(registration_steps(start, entries@, items, states));
        }
        k += 1;
    }
    assert(all.take(k as int) =~= all);
}

/// The collection holding the given step functions of each kind, each list
/// registered in turn.
pub fn collection_from<S>(given: Vec<Registration<S>>, when: Vec<Registration<S>>, then_steps: Vec<Registration<S>>) -> (c: Collection<S>)
    ensures
        registered_all(Seq::empty(), c.given@, given@),
        registered_all(Seq::empty(), c.when@, when@),
        registered_all(Seq::empty(), c.then_steps@, then_steps@),
{
    let mut c: Collection<S> = Collection::new();
    assert(c.given@ =~= Seq::<Entry<S>>::empty());
    assert(c.when@ =~= Seq::<Entry<S>>::empty());
    assert(c.then_steps@ =~= Seq::<Entry<S>>::empty());
    register_all(&mut c.given, given);
    register_all(&mut c.when, when);
    register_all(&mut c.then_steps, then_steps);
    c
}

impl<S> Collection<S> {
    /// Creates an empty collection.
    pub fn new() -> (c: Self)
        ensures
            c.given@.len() == 0,
            c.when@.len() == 0,
            c.then_steps@.len() == 0,
    {
        Collection { given: Vec::new(), when: Vec::new(), then_steps: Vec::new() }
    }

    /// The step functions of the kind `ty`.
    pub open spec fn steps_of(&self, ty: StepType) -> Seq<Entry<S>> {
        match ty {
            StepType::Given => self.given@,
            StepType::When => self.when@,
            StepType::Then => self.then_steps@,
        }
    }

    /// Adds a `Given` step function matching `regex`.
    pub fn given(self, loc: Option<Location>, regex: ::regex::Regex, step: S) -> (c: Self)
        ensures
            registered(self.given@, c.given@, loc, regex, step),
            keys_distinct(self.given@) ==> keys_distinct(c.given@),
            c.when@ == self.when@,
            c.then_steps@ == self.then_steps@,
    {
        let mut c = self;
        register(&mut c.given, loc, regex, step);
        c
    }

    /// Adds a `When` step function matching `regex`.
    pub fn when(self, loc: Option<Location>, regex: ::regex::Regex, step: S) -> (c: Self)
        ensures
            registered(self.when@, c.when@, loc, regex, step),
            keys_distinct(self.when@) ==> keys_distinct(c.when@),
            c.given@ == self.given@,
            c.then_steps@ == self.then_steps@,
    {
        let mut c = self;
        register(&mut c.when, loc, regex, step);
        c
    }

    /// Adds a `Then` step function matching `regex`.
    pub fn then_step(self, loc: Option<Location>, regex: ::regex::Regex, step: S) -> (c: Self)
        ensures
            registered(self.then_steps@, c.then_steps@, loc, regex, step),
            keys_distinct(self.then_steps@) ==> keys_distinct(c.then_steps@),
            c.given@ == self.given@,
            c.when@ == self.when@,
    {
        let mut c = self;
        register(&mut c.then_steps, loc, regex, step);
        c
    }

    /// Returns the step function the step matches, with the capture
    /// locations, its location and the context it runs in; `None` when the
    /// step matches no pattern of its kind.
    ///
    /// # Errors
    ///
    /// When the step matches several patterns of its kind: they are listed,
    /// ordered by pattern text and location.
    pub fn find(&self, step: &gherkin::Step) -> (r: Result<
        Option<(&S, ::regex::CaptureLocations, Option<Location>, Context)>,
        AmbiguousMatchError,
    >)
        ensures
            found(self.steps_of(step.ty), *step, r),
    {
        let entries: &Vec<Entry<S>> = match step.ty {
            StepType::Given => &self.given,
            StepType::When => &self.when,
            StepType::Then => &self.then_steps,
        };
        let ghost es = entries@;
        let text: &str = step.value.as_str();
        let ghost tv = text@;
        let mut hits: Vec<(usize, ::regex::CaptureLocations, (usize, usize))> = Vec::new();
        let n = entries.len();
        let mut j: usize = 0;
        while j < n
            invariant
                n == es.len(),
                es == entries@,
                tv == text@,
                j <= n,
                hits@.len() == hit_indices(es.take(j as int), tv).len(),
                forall|k: int| 0 <= k < hits@.len() ==> {
                    let h = #[trigger] hits@[k];
                    &&& h.0 as int == hit_indices(es.take(j as int), tv)[k]
                    &&& h.0 < j
                    &&& capture_spans(h.1) == regex_captures(es[h.0 as int].0.re(), tv).unwrap()
                    &&& locations_regex(h.1) == es[h.0 as int].0.re()
                    &&& capture_spans(h.1).len() >= 1
                    &&& capture_spans(h.1)[0] == Some(h.2)
                    &&& spans_fit(capture_spans(h.1), tv)
                },
            decreases n - j,
        {
            let re = entries[j].0.inner();
            let mut locs = capture_locations(re);
            let m = captures_read(re, &mut locs, text);
            let ghost before = hits@;
            proof {
                assert(es.take(j + 1).drop_last() == es.take(j as int));
                assert(es.take(j + 1).last() == es[j as int]);
            }
            match m {
                Some(w) => {
                    hits.push((j, locs, w));
                    proof {
                        assert(hit_indices(es.take(j + 1), tv) == hit_indices(es.take(j as int), tv).push(j as int));
                        assert forall|k: int| 0 <= k < hits@.len() implies {
                            let h = #[trigger] hits@[k];
                            &&& h.0 as int == hit_indices(es.take(j + 1), tv)[k]
                            &&& h.0 < j + 1
                            &&& capture_spans(h.1) == regex_captures(es[h.0 as int].0.re(), tv).unwrap()
                            &&& locations_regex(h.1) == es[h.0 as int].0.re()
                            &&& capture_spans(h.1).len() >= 1
                            &&& capture_spans(h.1)[0] == Some(h.2)
                            &&& spans_fit(capture_spans(h.1), tv)
                        } by {
                            if k < before.len() {
                                assert(hits@[k] == before[k]);
                            }
                        }
                    }
                },
                None => {
                    assert(hit_indices(es.take(j + 1), tv) == hit_indices(es.take(j as int), tv));
                },
            }
            j += 1;
        }
        assert(es.take(n as int) == es);
        let ghost hv = hit_indices(es, tv);
        if hits.len() == 0 {
            return Ok(None);
        }
        if hits.len() == 1 {
            let (idx, locs, whole) = hits.pop().unwrap();
            let e = &entries[idx];
            let re = e.0.inner();
            let names = capture_names(re);
            let groups = locations_len(&locs);
            let count = if names.len() <= groups { names.len() } else { groups };
            let ghost spans = capture_spans(locs);
            let ghost want = captured(regex_capture_names(e.0.re()), spans, tv);
            let mut matches: Vec<(CaptureName, String)> = Vec::new();
            let mut k: usize = 0;
            while k < count
                invariant
                    count == want.len(),
                    count <= names@.len(),
                    count <= spans.len(),
                    spans == capture_spans(locs),
                    spans.len() >= 1,
                    spans[0] == Some(whole),
                    spans_fit(spans, tv),
                    tv == text@,
                    crate::step::captures::opt_strings_view(names@) == regex_capture_names(e.0.re()),
                    want == captured(regex_capture_names(e.0.re()), spans, tv),
                    k <= count,
                    captures_view(matches@) == want.take(k as int),
                decreases count - k,
            {
                let name = copy_opt_string(&names[k]);
                let value = if k == 0 {
                    assert(spans[0] matches Some(p));
                    slice_bytes(text, whole.0, whole.1)
                } else {
                    match locations_get(&locs, k) {
                        Some(p) => {
                            assert(spans[k as int] matches Some(q));
                            slice_bytes(text, p.0, p.1)
                        },
                        None => String::new(),
                    }
                };
                let ghost before = matches@;
                matches.push((name, value));
                proof {
                    assert(captures_view(matches@) =~= captures_view(before).push((crate::feature::opt_view(name), value@)));
                    assert(want.take(k + 1) =~= want.take(k as int).push(want[k as int]));
                    assert(names@[k as int] == names@[k as int]);
                    assert(crate::step::captures::opt_strings_view(names@)[k as int] == crate::feature::opt_view(names@[k as int]));
                }
                k += 1;
            }
            assert(want.take(count as int) =~= want);
            let ctx = Context { step: step.clone(), matches };
            return Ok(Some((&e.2, locs, e.1, ctx)));
        }
        let mut possible: Vec<(HashableRegex, Option<Location>)> = Vec::new();
        let mut k: usize = 0;
        while k < hits.len()
            invariant
                hits@.len() == hv.len(),
                hv == hit_indices(es, tv),
                es == entries@,
                forall|q: int| 0 <= q < hits@.len() ==> (#[trigger] hits@[q]).0 as int == hv[q] && hits@[q].0 < es.len(),
                k <= hits@.len(),
                matches_view(possible@) == hit_matches(es, hv.take(k as int)),
            decreases hits.len() - k,
        {
            let idx = hits[k].0;
            let pattern = entries[idx].0.clone();
            let ghost before = possible@;
            possible.push((pattern, entries[idx].1));
            proof {
                assert(hv.take(k + 1) =~= hv.take(k as int).push(hv[k as int]));
                assert(matches_view(possible@) =~= matches_view(before).push(match_view((pattern, entries@[idx as int].1))));
                assert(hit_matches(es, hv.take(k + 1)) =~= hit_matches(es, hv.take(k as int)).push((es[hv[k as int]].0@, es[hv[k as int]].1)));
            }
            k += 1;
        }
        assert(hv.take(hits@.len() as int) =~= hv);
        Err(AmbiguousMatchError { possible_matches: sort_matches(possible) })
    }
}

} // verus!
