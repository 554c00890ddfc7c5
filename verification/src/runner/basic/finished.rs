//! Bookkeeping of the features and rules that have started running: how
//! many of their scenarios have finished, and when they are finished.
//!
//! Features and rules are referred to by the plain numbers that the
//! scenario storage uses; a rule is named by its feature and itself.

use vstd::prelude::*;

use super::scenario_storage::Runnable;

verus! {

/// Whether `key` has an entry in `counts`.
pub open spec fn has_key<K>(counts: Seq<(K, usize)>, key: K) -> bool {
    exists|i: int| 0 <= i < counts.len() && (#[trigger] counts[i]).0 == key
}

/// No key has two entries.
pub open spec fn keys_distinct<K>(counts: Seq<(K, usize)>) -> bool {
    forall|i: int, j: int| 0 <= i < j < counts.len() ==> (#[trigger] counts[i]).0 != (#[trigger] counts[j]).0
}

/// Registers `keys` in turn: each key not registered yet gets a count of
/// zero and is reported as started, in order of first appearance.
pub open spec fn start_keys<K>(counts: Seq<(K, usize)>, keys: Seq<K>) -> (Seq<(K, usize)>, Seq<K>)
    decreases keys.len(),
{
    if keys.len() == 0 {
        (counts, Seq::empty())
    } else {
        let (c, started) = start_keys(counts, keys.drop_last());
        let k = keys.last();
        if has_key(c, k) { (c, started) } else { (c.push((k, 0usize)), started.push(k)) }
    }
}

/// Features of the runnable scenarios, in order.
pub open spec fn runnable_features(rs: Seq<Runnable>) -> Seq<usize> {
    rs.map_values(|r: Runnable| r.feature)
}

/// Rules (with their feature) of the runnable scenarios that have one, in order.
pub open spec fn runnable_rules(rs: Seq<Runnable>) -> Seq<(usize, usize)>
    decreases rs.len(),
{
    if rs.len() == 0 {
        Seq::empty()
    } else {
        let init = runnable_rules(rs.drop_last());
        match rs.last().rule {
            Some(r) => init.push((rs.last().feature, r)),
            None => init,
        }
    }
}

/// Counts after one more scenario of `key` finished, out of `total`: the
/// count grows by one, and the entry goes once the count reaches `total`.
/// Returns the counts and whether `key` is now finished.
pub open spec fn finish_one<K>(counts: Seq<(K, usize)>, key: K, total: usize) -> (Seq<(K, usize)>, bool) {
    let i = choose|i: int| 0 <= i < counts.len() && counts[i].0 == key;
    let n = counts[i].1 + 1;
    if n == total {
        (counts.remove(i), true)
    } else {
        (counts.update(i, (key, n as usize)), false)
    }
}

/// Position of `key` in `counts`, if registered.
fn find_key_feature(counts: &Vec<(usize, usize)>, key: usize) -> (r: Option<usize>)
    requires
        keys_distinct(counts@),
    ensures
        r matches Some(i) ==> i < counts@.len() && counts@[i as int].0 == key,
        r is None <==> !has_key(counts@, key),
{
    let mut i: usize = 0;
    while i < counts.len()
        invariant
            i <= counts@.len(),
            forall|j: int| 0 <= j < i ==> (#[trigger] counts@[j]).0 != key,
        decreases counts.len() - i,
    {
        if counts[i].0 == key {
            return Some(i);
        }
        i += 1;
    }
    None
}

/// Registers keys as [`start_keys`] describes.
fn start_all_feature(counts: &mut Vec<(usize, usize)>, keys: &Vec<usize>) -> (started: Vec<usize>)
    requires
        keys_distinct(old(counts)@),
    ensures
        keys_distinct(final(counts)@),
        (final(counts)@, started@) == start_keys(old(counts)@, keys@),
{
    let mut started: Vec<usize> = Vec::new();
    let mut i: usize = 0;
    while i < keys.len()
        invariant
            i <= keys@.len(),
            keys_distinct(counts@),
            (counts@, started@) == start_keys(old(counts)@, keys@.take(i as int)),
        decreases keys.len() - i,
    {
        let k = keys[i];
        proof {
            assert(keys@.take(i + 1).drop_last() == keys@.take(i as int));
            assert(keys@.take(i + 1).last() == k);
        }
        if find_key_feature(counts, k).is_none() {
            counts.push((k, 0));
            started.push(k);
        }
        i += 1;
    }
    assert(keys@.take(keys@.len() as int) == keys@);
    started
}

/// Marks one more finished scenario of `key`, as [`finish_one`] describes.
fn finish_key_feature(counts: &mut Vec<(usize, usize)>, key: usize, total: usize) -> (done: bool)
    requires
        keys_distinct(old(counts)@),
        has_key(old(counts)@, key),
        forall|i: int| 0 <= i < old(counts)@.len() ==> (#[trigger] old(counts)@[i]).1 < usize::MAX,
    ensures
        keys_distinct(final(counts)@),
        (final(counts)@, done) == finish_one(old(counts)@, key, total),
{
    let i = match find_key_feature(counts, key) {
        Some(i) => i,
        None => 0,
    };
    assert(counts@[i as int].0 == key);
    let ghost c = choose|j: int| 0 <= j < counts@.len() && counts@[j].0 == key;
    assert(c == i);
    let n = counts[i].1 + 1;
    if n == total {
        counts.remove(i);
        proof {
            assert forall|a: int, b: int| 0 <= a < b < counts@.len() implies
                (#[trigger] counts@[a]).0 != (#[trigger] counts@[b]).0 by {
                let a0 = if a < i { a } else { a + 1 };
                let b0 = if b < i { b } else { b + 1 };
                assert(old(counts)@[a0].0 != old(counts)@[b0].0);
            }
        }
        true
    } else {
        counts.set(i, (key, n));
        false
    }
}

/// Position of `key` in `counts`, if registered.
fn find_key_rule(counts: &Vec<((usize, usize), usize)>, key: (usize, usize)) -> (r: Option<usize>)
    requires
        keys_distinct(counts@),
    ensures
        r matches Some(i) ==> i < counts@.len() && counts@[i as int].0 == key,
        r is None <==> !has_key(counts@, key),
{
    let mut i: usize = 0;
    while i < counts.len()
        invariant
            i <= counts@.len(),
            forall|j: int| 0 <= j < i ==> (#[trigger] counts@[j]).0 != key,
        decreases counts.len() - i,
    {
        if counts[i].0.0 == key.0 && counts[i].0.1 == key.1 {
            return Some(i);
        }
        i += 1;
    }
    None
}

/// Registers keys as [`start_keys`] describes.
fn start_all_rule(counts: &mut Vec<((usize, usize), usize)>, keys: &Vec<(usize, usize)>) -> (started: Vec<(usize, usize)>)
    requires
        keys_distinct(old(counts)@),
    ensures
        keys_distinct(final(counts)@),
        (final(counts)@, started@) == start_keys(old(counts)@, keys@),
{
    let mut started: Vec<(usize, usize)> = Vec::new();
    let mut i: usize = 0;
    while i < keys.len()
        invariant
            i <= keys@.len(),
            keys_distinct(counts@),
            (counts@, started@) == start_keys(old(counts)@, keys@.take(i as int)),
        decreases keys.len() - i,
    {
        let k = keys[i];
        proof {
            assert(keys@.take(i + 1).drop_last() == keys@.take(i as int));
            assert(keys@.take(i + 1).last() == k);
        }
        if find_key_rule(counts, k).is_none() {
            counts.push((k, 0));
            started.push(k);
        }
        i += 1;
    }
    assert(keys@.take(keys@.len() as int) == keys@);
    started
}

/// Marks one more finished scenario of `key`, as [`finish_one`] describes.
fn finish_key_rule(counts: &mut Vec<((usize, usize), usize)>, key: (usize, usize), total: usize) -> (done: bool)
    requires
        keys_distinct(old(counts)@),
        has_key(old(counts)@, key),
        forall|i: int| 0 <= i < old(counts)@.len() ==> (#[trigger] old(counts)@[i]).1 < usize::MAX,
    ensures
        keys_distinct(final(counts)@),
        (final(counts)@, done) == finish_one(old(counts)@, key, total),
{
    let i = match find_key_rule(counts, key) {
        Some(i) => i,
        None => 0,
    };
    assert(counts@[i as int].0 == key);
    let ghost c = choose|j: int| 0 <= j < counts@.len() && counts@[j].0 == key;
    assert(c == i);
    let n = counts[i].1 + 1;
    if n == total {
        counts.remove(i);
        proof {
            assert forall|a: int, b: int| 0 <= a < b < counts@.len() implies
                (#[trigger] counts@[a]).0 != (#[trigger] counts@[b]).0 by {
                let a0 = if a < i { a } else { a + 1 };
                let b0 = if b < i { b } else { b + 1 };
                assert(old(counts)@[a0].0 != old(counts)@[b0].0);
            }
        }
        true
    } else {
        counts.set(i, (key, n));
        false
    }
}

/// The features and rules that have started, with how many of their
/// scenarios have finished.
#[derive(Debug)]
pub struct FinishedRulesAndFeatures {
    features_scenarios_count: Vec<(usize, usize)>,
    rule_scenarios_count: Vec<((usize, usize), usize)>,
}

impl FinishedRulesAndFeatures {
    /// Started features with their finished-scenario counts, in start order.
    pub closed spec fn feature_counts(&self) -> Seq<(usize, usize)> {
        self.features_scenarios_count@
    }

    /// Started rules with their finished-scenario counts, in start order.
    pub closed spec fn rule_counts(&self) -> Seq<((usize, usize), usize)> {
        self.rule_scenarios_count@
    }

    /// No feature or rule is registered twice.
    #[verifier::type_invariant]
    closed spec fn wf(&self) -> bool {
        keys_distinct(self.features_scenarios_count@) && keys_distinct(self.rule_scenarios_count@)
    }

    /// Nothing started yet.
    pub fn new() -> (r: Self)
        ensures
            r.feature_counts().len() == 0,
            r.rule_counts().len() == 0,
    {
        FinishedRulesAndFeatures { features_scenarios_count: Vec::new(), rule_scenarios_count: Vec::new() }
    }

    /// Registers the features and rules of the scenarios about to run;
    /// returns those seen for the first time (their `Started` events, features
    /// before rules).
    pub fn start_scenarios(&mut self, runnable: &Vec<Runnable>) -> (r: (Vec<usize>, Vec<(usize, usize)>))
        ensures
            (final(self).feature_counts(), r.0@) == start_keys(old(self).feature_counts(), runnable_features(runnable@)),
            (final(self).rule_counts(), r.1@) == start_keys(old(self).rule_counts(), runnable_rules(runnable@)),
    {
        proof { use_type_invariant(&*self); }
        let mut features: Vec<usize> = Vec::new();
        let mut rules: Vec<(usize, usize)> = Vec::new();
        let mut i: usize = 0;
        while i < runnable.len()
            invariant
                i <= runnable@.len(),
                features@ == runnable_features(runnable@.take(i as int)),
                rules@ == runnable_rules(runnable@.take(i as int)),
            decreases runnable.len() - i,
        {
            let r = runnable[i];
            features.push(r.feature);
            match r.rule {
                Some(rule) => rules.push((r.feature, rule)),
                None => {},
            }
            proof {
                assert(runnable@.take(i + 1).drop_last() == runnable@.take(i as int));
                assert(runnable@.take(i + 1).last() == r);
                assert(features@ =~= runnable_features(runnable@.take(i + 1)));
            }
            i += 1;
        }
        assert(runnable@.take(runnable@.len() as int) == runnable@);
        let mut fc = Vec::new();
        std::mem::swap(&mut fc, &mut self.features_scenarios_count);
        let mut rc = Vec::new();
        std::mem::swap(&mut rc, &mut self.rule_scenarios_count);
        let started_features = start_all_feature(&mut fc, &features);
        let started_rules = start_all_rule(&mut rc, &rules);
        self.features_scenarios_count = fc;
        self.rule_scenarios_count = rc;
        (started_features, started_rules)
    }

    /// Marks one scenario of `feature` as finished, out of `total` scenarios
    /// it has; a retried scenario does not count. Returns whether the feature
    /// is now finished (its entry then goes).
    pub fn feature_scenario_finished(&mut self, feature: usize, total: usize, is_retried: bool) -> (done: bool)
        requires
            !is_retried ==> has_key(old(self).feature_counts(), feature),
            !is_retried ==> forall|i: int| 0 <= i < old(self).feature_counts().len() ==> (#[trigger] old(self).feature_counts()[i]).1 < usize::MAX,
        ensures
            final(self).rule_counts() == old(self).rule_counts(),
            is_retried ==> !done && final(self).feature_counts() == old(self).feature_counts(),
            !is_retried ==> (final(self).feature_counts(), done) == finish_one(old(self).feature_counts(), feature, total),
    {
        proof { use_type_invariant(&*self); }
        if is_retried {
            return false;
        }
        let mut fc = Vec::new();
        std::mem::swap(&mut fc, &mut self.features_scenarios_count);
        let done = finish_key_feature(&mut fc, feature, total);
        self.features_scenarios_count = fc;
        done
    }

    /// Marks one scenario of `rule` (of `feature`) as finished, out of
    /// `total` scenarios it has; a retried scenario does not count. Returns
    /// whether the rule is now finished (its entry then goes).
    pub fn rule_scenario_finished(&mut self, feature: usize, rule: usize, total: usize, is_retried: bool) -> (done: bool)
        requires
            !is_retried ==> has_key(old(self).rule_counts(), (feature, rule)),
            !is_retried ==> forall|i: int| 0 <= i < old(self).rule_counts().len() ==> (#[trigger] old(self).rule_counts()[i]).1 < usize::MAX,
        ensures
            final(self).feature_counts() == old(self).feature_counts(),
            is_retried ==> !done && final(self).rule_counts() == old(self).rule_counts(),
            !is_retried ==> (final(self).rule_counts(), done) == finish_one(old(self).rule_counts(), (feature, rule), total),
    {
        proof { use_type_invariant(&*self); }
        if is_retried {
            return false;
        }
        let mut rc = Vec::new();
        std::mem::swap(&mut rc, &mut self.rule_scenarios_count);
        let done = finish_key_rule(&mut rc, (feature, rule), total);
        self.rule_scenarios_count = rc;
        done
    }

    /// Finishes every feature and rule still registered: returns the rules
    /// (their `Finished` events first) and the features, in start order, and
    /// leaves nothing registered.
    pub fn finish_all_rules_and_features(&mut self) -> (r: (Vec<(usize, usize)>, Vec<usize>))
        ensures
            r.0@ == old(self).rule_counts().map_values(|e: ((usize, usize), usize)| e.0),
            r.1@ == old(self).feature_counts().map_values(|e: (usize, usize)| e.0),
            final(self).feature_counts().len() == 0,
            final(self).rule_counts().len() == 0,
    {
        proof { use_type_invariant(&*self); }
        let mut rules: Vec<(usize, usize)> = Vec::new();
        let mut i: usize = 0;
        while i < self.rule_scenarios_count.len()
            invariant
                i <= self.rule_scenarios_count@.len(),
                self.rule_scenarios_count@ == old(self).rule_scenarios_count@,
                rules@ == self.rule_scenarios_count@.take(i as int).map_values(|e: ((usize, usize), usize)| e.0),
            decreases self.rule_scenarios_count.len() - i,
        {
            rules.push(self.rule_scenarios_count[i].0);
            proof {
                assert(self.rule_scenarios_count@.take(i + 1) == self.rule_scenarios_count@.take(i as int).push(self.rule_scenarios_count@[i as int]));
                assert(rules@ =~= self.rule_scenarios_count@.take(i + 1).map_values(|e: ((usize, usize), usize)| e.0));
            }
            i += 1;
        }
        assert(self.rule_scenarios_count@.take(self.rule_scenarios_count@.len() as int) == self.rule_scenarios_count@);
        let mut features: Vec<usize> = Vec::new();
        let mut j: usize = 0;
        while j < self.features_scenarios_count.len()
            invariant
                j <= self.features_scenarios_count@.len(),
                self.features_scenarios_count@ == old(self).features_scenarios_count@,
                features@ == self.features_scenarios_count@.take(j as int).map_values(|e: (usize, usize)| e.0),
            decreases self.features_scenarios_count.len() - j,
        {
            features.push(self.features_scenarios_count[j].0);
            proof {
                assert(self.features_scenarios_count@.take(j + 1) == self.features_scenarios_count@.take(j as int).push(self.features_scenarios_count@[j as int]));
                assert(features@ =~= self.features_scenarios_count@.take(j + 1).map_values(|e: (usize, usize)| e.0));
            }
            j += 1;
        }
        assert(self.features_scenarios_count@.take(self.features_scenarios_count@.len() as int) == self.features_scenarios_count@);
        self.rule_scenarios_count = Vec::new();
        self.features_scenarios_count = Vec::new();
        (rules, features)
    }
}

/// Starting scenarios registers every feature (or rule) they belong
/// to, reports as started exactly those not registered before, each once,
/// and keeps what was registered.
pub proof fn lemma_start_reports_each_once<K>(counts: Seq<(K, usize)>, keys: Seq<K>)
    requires
        keys_distinct(counts),
    ensures
        ({
            let (c, started) = start_keys(counts, keys);
            &&& keys_distinct(c)
            &&& forall|i: int| 0 <= i < keys.len() ==> has_key(c, #[trigger] keys[i])
            &&& forall|i: int| 0 <= i < started.len() ==> !has_key(counts, #[trigger] started[i])
            &&& forall|i: int, j: int| 0 <= i < j < started.len() ==> started[i] != started[j]
            &&& forall|i: int| 0 <= i < counts.len() ==> c[i] == counts[i]
            &&& c.len() == counts.len() + started.len()
        }),
    decreases keys.len(),
{
    if keys.len() > 0 {
        let init = keys.drop_last();
        lemma_start_reports_each_once(counts, init);
        let (c0, st0) = start_keys(counts, init);
        let k = keys.last();
        let (c, started) = start_keys(counts, keys);
        assert forall|i: int| 0 <= i < keys.len() implies has_key(c, #[trigger] keys[i]) by {
            if i < keys.len() - 1 {
                assert(keys[i] == init[i]);
                let j = choose|j: int| 0 <= j < c0.len() && (#[trigger] c0[j]).0 == init[i];
                assert(c[j] == c0[j]);
            } else if !has_key(c0, k) {
                assert(c[c0.len() as int].0 == k);
            }
        }
        if !has_key(c0, k) {
            assert forall|i: int| 0 <= i < started.len() implies !has_key(counts, #[trigger] started[i]) by {
                if i < st0.len() {
                    assert(started[i] == st0[i]);
                } else if has_key(counts, k) {
                    let j = choose|j: int| 0 <= j < counts.len() && (#[trigger] counts[j]).0 == k;
                    assert(c0[j] == counts[j]);
                }
            }
            assert forall|i: int, j: int| 0 <= i < j < started.len() implies started[i] != started[j] by {
                if j == started.len() - 1 && i < st0.len() {
                    let m = counts.len() + i;
                    assert(c0[m].0 == st0[i]) by {
                        lemma_started_are_appended(counts, init, i);
                    }
                }
            }
        }
    }
}

/// What is reported as started is what was appended, in the same order.
proof fn lemma_started_are_appended<K>(counts: Seq<(K, usize)>, keys: Seq<K>, i: int)
    requires
        0 <= i < start_keys(counts, keys).1.len(),
    ensures
        start_keys(counts, keys).0.len() == counts.len() + start_keys(counts, keys).1.len(),
        start_keys(counts, keys).0[counts.len() + i] == (start_keys(counts, keys).1[i], 0usize),
    decreases keys.len(),
{
    if keys.len() > 0 {
        let init = keys.drop_last();
        lemma_start_len(counts, init);
        let (c0, st0) = start_keys(counts, init);
        if i < st0.len() {
            lemma_started_are_appended(counts, init, i);
        }
    }
}

/// Starting keeps what was registered and appends one entry per start.
proof fn lemma_start_len<K>(counts: Seq<(K, usize)>, keys: Seq<K>)
    ensures
        start_keys(counts, keys).0.len() == counts.len() + start_keys(counts, keys).1.len(),
    decreases keys.len(),
{
    if keys.len() > 0 {
        lemma_start_len(counts, keys.drop_last());
    }
}

/// A feature (or rule) is reported finished exactly when one more
/// finished scenario brings its count to its number of scenarios; until then
/// its count grows by one.
pub proof fn lemma_finish_one_counts<K>(counts: Seq<(K, usize)>, key: K, total: usize, i: int)
    requires
        keys_distinct(counts),
        0 <= i < counts.len(),
        counts[i].0 == key,
        counts[i].1 < usize::MAX,
    ensures
        finish_one(counts, key, total).1 <==> counts[i].1 + 1 == total,
        !finish_one(counts, key, total).1 ==> finish_one(counts, key, total).0[i] == (key, (counts[i].1 + 1) as usize),
        finish_one(counts, key, total).1 ==> !has_key(finish_one(counts, key, total).0, key),
{
    let c = choose|j: int| 0 <= j < counts.len() && counts[j].0 == key;
    assert(c == i);
    if counts[i].1 + 1 == total {
        let r = counts.remove(i);
        if has_key(r, key) {
            let j = choose|j: int| 0 <= j < r.len() && (#[trigger] r[j]).0 == key;
            let j0 = if j < i { j } else { j + 1 };
            assert(counts[j0].0 == key);
        }
    }
}

} // verus!
