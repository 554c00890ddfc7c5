//! Queue of the scenarios of one feature: those directly inside it, and
//! those of each of its rules.
//!
//! Features, rules and scenarios are referred to by plain numbers that the
//! caller assigns.

use vstd::prelude::*;

use std::collections::VecDeque;

use super::cli_and_types::ScenarioType;
use super::supporting_structures::ScenarioId;
use crate::event::Retries;

verus! {

/// A queued scenario: its run identifier, feature, rule (if any), scenario,
/// how it runs, and its retries (if it may be retried).
pub type ScenarioItem = (ScenarioId, usize, Option<usize>, usize, ScenarioType, Option<Retries>);

/// Scenarios of one rule, in the order they were added.
pub type RuleScenarios = VecDeque<ScenarioItem>;

/// The queue of each rule, reduced to sequences.
pub open spec fn rule_queues(rules: Seq<(usize, RuleScenarios)>) -> Seq<(usize, Seq<ScenarioItem>)> {
    rules.map_values(|r: (usize, RuleScenarios)| (r.0, r.1@))
}

/// Number of scenarios queued under the rules.
pub open spec fn rules_total(rules: Seq<(usize, Seq<ScenarioItem>)>) -> int
    decreases rules.len(),
{
    if rules.len() == 0 {
        0
    } else {
        rules_total(rules.drop_last()) + rules.last().1.len()
    }
}

/// Index of the first rule queue that is not empty, if any.
pub open spec fn first_nonempty(rules: Seq<(usize, Seq<ScenarioItem>)>) -> Option<int>
    decreases rules.len(),
{
    if rules.len() == 0 {
        None
    } else {
        match first_nonempty(rules.drop_last()) {
            Some(i) => Some(i),
            None => if rules.last().1.len() > 0 { Some(rules.len() - 1) } else { None },
        }
    }
}

/// Index of the first queue of rule `rule`, if any.
pub open spec fn rule_position(rules: Seq<(usize, Seq<ScenarioItem>)>, rule: usize) -> Option<int>
    decreases rules.len(),
{
    if rules.len() == 0 {
        None
    } else {
        match rule_position(rules.drop_last(), rule) {
            Some(i) => Some(i),
            None => if rules.last().0 == rule { Some(rules.len() - 1) } else { None },
        }
    }
}

/// No rule has two queues.
pub open spec fn rules_distinct(rules: Seq<(usize, Seq<ScenarioItem>)>) -> bool {
    forall|i: int, j: int| 0 <= i < j < rules.len() ==> (#[trigger] rules[i]).0 != (#[trigger] rules[j]).0
}

/// Index of the first serial scenario in `q`, if any.
pub open spec fn first_serial(q: Seq<ScenarioItem>) -> Option<int>
    decreases q.len(),
{
    if q.len() == 0 {
        None
    } else {
        match first_serial(q.drop_last()) {
            Some(i) => Some(i),
            None => if q.last().4 == ScenarioType::Serial { Some(q.len() - 1) } else { None },
        }
    }
}

/// Index of the first rule queue holding a serial scenario, if any.
pub open spec fn first_serial_rule(rules: Seq<(usize, Seq<ScenarioItem>)>) -> Option<int>
    decreases rules.len(),
{
    if rules.len() == 0 {
        None
    } else {
        match first_serial_rule(rules.drop_last()) {
            Some(i) => Some(i),
            None => if first_serial(rules.last().1) is Some { Some(rules.len() - 1) } else { None },
        }
    }
}

/// Whether a serial scenario is queued in `scenarios` or under `rules`.
pub open spec fn has_serial(scenarios: Seq<ScenarioItem>, rules: Seq<(usize, Seq<ScenarioItem>)>) -> bool {
    (exists|k: int| 0 <= k < scenarios.len() && (#[trigger] scenarios[k]).4 == ScenarioType::Serial)
    || (exists|i: int, k: int| 0 <= i < rules.len() && 0 <= k < rules[i].1.len()
        && (#[trigger] rules[i].1[k]).4 == ScenarioType::Serial)
}

proof fn lemma_first_serial_props(q: Seq<ScenarioItem>)
    ensures
        first_serial(q) matches Some(i) ==> 0 <= i < q.len() && q[i].4 == ScenarioType::Serial
            && forall|j: int| 0 <= j < i ==> (#[trigger] q[j]).4 != ScenarioType::Serial,
        first_serial(q) is None ==> forall|j: int| 0 <= j < q.len() ==> (#[trigger] q[j]).4 != ScenarioType::Serial,
    decreases q.len(),
{
    if q.len() > 0 {
        lemma_first_serial_props(q.drop_last());
        assert forall|j: int| 0 <= j < q.len() - 1 implies q.drop_last()[j] == #[trigger] q[j] by {}
    }
}

proof fn lemma_first_serial_rule_props(rules: Seq<(usize, Seq<ScenarioItem>)>)
    ensures
        first_serial_rule(rules) matches Some(i) ==> 0 <= i < rules.len() && first_serial(rules[i].1) is Some
            && forall|j: int| 0 <= j < i ==> first_serial((#[trigger] rules[j]).1) is None,
        first_serial_rule(rules) is None ==> forall|j: int| 0 <= j < rules.len() ==> first_serial((#[trigger] rules[j]).1) is None,
    decreases rules.len(),
{
    if rules.len() > 0 {
        lemma_first_serial_rule_props(rules.drop_last());
        assert forall|j: int| 0 <= j < rules.len() - 1 implies rules.drop_last()[j] == #[trigger] rules[j] by {}
    }
}

/// Position of the first serial scenario of `q`, if any.
fn find_serial(q: &RuleScenarios) -> (k: Option<usize>)
    ensures
        k matches Some(i) ==> first_serial(q@) == Some(i as int),
        k is None ==> first_serial(q@) is None,
{
    proof {
        lemma_first_serial_props(q@);
    }
    let n = q.len();
    let mut i: usize = 0;
    while i < n
        invariant
            n == q@.len(),
            i <= n,
            forall|j: int| 0 <= j < i ==> (#[trigger] q@[j]).4 != ScenarioType::Serial,
            first_serial(q@) matches Some(p) ==> 0 <= p < q@.len() && q@[p].4 == ScenarioType::Serial
                && forall|j: int| 0 <= j < p ==> (#[trigger] q@[j]).4 != ScenarioType::Serial,
            first_serial(q@) is None ==> forall|j: int| 0 <= j < q@.len() ==> (#[trigger] q@[j]).4 != ScenarioType::Serial,
        decreases n - i,
    {
        let serial = match q[i].4 {
            ScenarioType::Serial => true,
            ScenarioType::Concurrent => false,
        };
        if serial {
            assert(q@[i as int].4 == ScenarioType::Serial);
            return Some(i);
        }
        i += 1;
    }
    None
}

proof fn lemma_total_nonnegative(rules: Seq<(usize, Seq<ScenarioItem>)>)
    ensures
        rules_total(rules) >= 0,
        rules_total(rules) == 0 <==> first_nonempty(rules) is None,
    decreases rules.len(),
{
    if rules.len() > 0 {
        lemma_total_nonnegative(rules.drop_last());
    }
}

proof fn lemma_first_nonempty_props(rules: Seq<(usize, Seq<ScenarioItem>)>)
    ensures
        first_nonempty(rules) matches Some(i) ==> 0 <= i < rules.len() && rules[i].1.len() > 0
            && forall|j: int| 0 <= j < i ==> (#[trigger] rules[j]).1.len() == 0,
        first_nonempty(rules) is None ==> forall|j: int| 0 <= j < rules.len() ==> (#[trigger] rules[j]).1.len() == 0,
    decreases rules.len(),
{
    if rules.len() > 0 {
        lemma_first_nonempty_props(rules.drop_last());
        assert forall|j: int| 0 <= j < rules.len() - 1 implies rules.drop_last()[j] == #[trigger] rules[j] by {}
    }
}

proof fn lemma_rule_position_props(rules: Seq<(usize, Seq<ScenarioItem>)>, rule: usize)
    ensures
        rule_position(rules, rule) matches Some(i) ==> 0 <= i < rules.len() && rules[i].0 == rule
            && forall|j: int| 0 <= j < i ==> (#[trigger] rules[j]).0 != rule,
        rule_position(rules, rule) is None ==> forall|j: int| 0 <= j < rules.len() ==> (#[trigger] rules[j]).0 != rule,
    decreases rules.len(),
{
    if rules.len() > 0 {
        lemma_rule_position_props(rules.drop_last(), rule);
        assert forall|j: int| 0 <= j < rules.len() - 1 implies rules.drop_last()[j] == #[trigger] rules[j] by {}
    }
}

/// Changing the queue at `i` changes the total by the change of its length.
proof fn lemma_total_update(rules: Seq<(usize, Seq<ScenarioItem>)>, i: int, q: (usize, Seq<ScenarioItem>))
    requires
        0 <= i < rules.len(),
    ensures
        rules_total(rules.update(i, q)) == rules_total(rules) - rules[i].1.len() + q.1.len(),
    decreases rules.len(),
{
    let u = rules.update(i, q);
    if i == rules.len() - 1 {
        assert(u.drop_last() =~= rules.drop_last());
    } else {
        lemma_total_update(rules.drop_last(), i, q);
        assert(u.drop_last() =~= rules.drop_last().update(i, q));
    }
}

/// Scenarios of one feature waiting to run.
#[derive(Debug)]
pub struct FeatureEntry {
    /// Scenarios directly inside the feature, in the order they were added.
    pub scenarios: VecDeque<ScenarioItem>,
    /// Each rule with its scenarios, rules in the order they were first met.
    pub rules: Vec<(usize, RuleScenarios)>,
}

impl Default for FeatureEntry {
    fn default() -> (e: Self)
        ensures
            e.scenarios@.len() == 0,
            e.rules@.len() == 0,
    {
        FeatureEntry { scenarios: VecDeque::new(), rules: Vec::new() }
    }
}

impl FeatureEntry {
    /// Number of scenarios queued in this entry.
    pub open spec fn total(&self) -> int {
        self.scenarios@.len() + rules_total(rule_queues(self.rules@))
    }

    /// Creates an empty entry.
    pub fn new() -> (e: Self)
        ensures
            e.scenarios@.len() == 0,
            e.rules@.len() == 0,
    {
        FeatureEntry { scenarios: VecDeque::new(), rules: Vec::new() }
    }

    /// Adds a scenario directly inside the feature, after the others.
    pub fn add_scenario(&mut self, scenario: ScenarioItem)
        ensures
            final(self).scenarios@ == old(self).scenarios@.push(scenario),
            final(self).rules@ == old(self).rules@,
            final(self).total() == old(self).total() + 1,
    {
        self.scenarios.push_back(scenario);
    }

    /// Adds a scenario under rule `rule`, after the others of that rule; a
    /// rule met for the first time gets a queue after those of the others.
    pub fn add_rule_scenario(&mut self, rule: usize, scenario: ScenarioItem)
        ensures
            final(self).scenarios@ == old(self).scenarios@,
            ({
                let before = rule_queues(old(self).rules@);
                let after = rule_queues(final(self).rules@);
                match rule_position(before, rule) {
                    Some(i) => after == before.update(i, (rule, before[i].1.push(scenario))),
                    None => after == before.push((rule, seq![scenario])),
                }
            }),
            rules_distinct(rule_queues(old(self).rules@)) ==> rules_distinct(rule_queues(final(self).rules@)),
            final(self).total() == old(self).total() + 1,
    {
        let ghost before = rule_queues(self.rules@);
        proof {
            lemma_rule_position_props(before, rule);
        }
        let n = self.rules.len();
        let mut i: usize = 0;
        while i < n
            invariant
                n == self.rules@.len(),
                before == rule_queues(self.rules@),
                before == rule_queues(old(self).rules@),
                self.scenarios@ == old(self).scenarios@,
                i <= n,
                forall|j: int| 0 <= j < i ==> (#[trigger] before[j]).0 != rule,
                rule_position(before, rule) matches Some(p) ==> 0 <= p < before.len() && before[p].0 == rule
                    && forall|j: int| 0 <= j < p ==> (#[trigger] before[j]).0 != rule,
                rule_position(before, rule) is None ==> forall|j: int| 0 <= j < before.len() ==> (#[trigger] before[j]).0 != rule,
            decreases n - i,
        {
            if self.rules[i].0 == rule {
                assert(before[i as int].0 == rule);
                assert(rule_position(before, rule) == Some(i as int));
                let (id, mut q) = self.rules.remove(i);
                q.push_back(scenario);
                self.rules.insert(i, (id, q));
                proof {
                    let after = rule_queues(self.rules@);
                    assert(after =~= before.update(i as int, (rule, before[i as int].1.push(scenario))));
                    lemma_total_update(before, i as int, (rule, before[i as int].1.push(scenario)));
                    if rules_distinct(before) {
                        assert forall|a: int, b: int| 0 <= a < b < after.len() implies (#[trigger] after[a]).0 != (#[trigger] after[b]).0 by {
                            assert(after[a].0 == before[a].0);
                            assert(after[b].0 == before[b].0);
                        }
                    }
                }
                return;
            }
            i += 1;
        }
        let mut q: RuleScenarios = VecDeque::new();
        q.push_back(scenario);
        self.rules.push((rule, q));
        proof {
            let after = rule_queues(self.rules@);
            assert(q@ =~= seq![scenario]);
            assert(after =~= before.push((rule, seq![scenario])));
            assert(after.drop_last() =~= before);
            if rules_distinct(before) {
                assert forall|a: int, b: int| 0 <= a < b < after.len() implies (#[trigger] after[a]).0 != (#[trigger] after[b]).0 by {
                    if b == n {
                        assert(after[a] == before[a]);
                    }
                }
            }
        }
    }

    /// Takes the next scenario, serial ones first: the first serial one
    /// directly inside the feature, otherwise the first serial one of the
    /// first rule that has any; when none is serial, the first one directly
    /// inside the feature, otherwise the first one of the first rule that
    /// has any.
    pub fn next_scenario(&mut self) -> (r: Option<ScenarioItem>)
        ensures
            ({
                let before = rule_queues(old(self).rules@);
                let after = rule_queues(final(self).rules@);
                match first_serial(old(self).scenarios@) {
                    Some(k) => {
                        &&& r == Some(old(self).scenarios@[k])
                        &&& final(self).scenarios@ == old(self).scenarios@.remove(k)
                        &&& after == before
                    },
                    None => match first_serial_rule(before) {
                        Some(i) => {
                            let k = first_serial(before[i].1)->0;
                            &&& r == Some(before[i].1[k])
                            &&& final(self).scenarios@ == old(self).scenarios@
                            &&& after == before.update(i, (before[i].0, before[i].1.remove(k)))
                        },
                        None => if old(self).scenarios@.len() > 0 {
                            &&& r == Some(old(self).scenarios@[0])
                            &&& final(self).scenarios@ == old(self).scenarios@.drop_first()
                            &&& after == before
                        } else {
                            &&& final(self).scenarios@ == old(self).scenarios@
                            &&& match first_nonempty(before) {
                                Some(i) => r == Some(before[i].1[0]) && after == before.update(i, (before[i].0, before[i].1.drop_first())),
                                None => r is None && after == before,
                            }
                        },
                    },
                }
            }),
            has_serial(old(self).scenarios@, rule_queues(old(self).rules@)) ==> (r matches Some(x) && x.4 == ScenarioType::Serial),
            r is None <==> old(self).total() == 0,
            r is Some ==> final(self).total() == old(self).total() - 1,
    {
        let ghost before = rule_queues(self.rules@);
        proof {
            lemma_first_serial_props(self.scenarios@);
            lemma_first_serial_rule_props(before);
            lemma_total_nonnegative(before);
            if has_serial(self.scenarios@, before) {
                if first_serial(self.scenarios@) is None {
                    let (i, k) = choose|i: int, k: int| 0 <= i < before.len() && 0 <= k < before[i].1.len()
                        && (#[trigger] before[i].1[k]).4 == ScenarioType::Serial;
                    lemma_first_serial_props(before[i].1);
                    assert(first_serial(before[i].1) is Some);
                    assert(first_serial_rule(before) is Some);
                }
            }
        }
        if let Some(k) = find_serial(&self.scenarios) {
            let s = self.scenarios.remove(k);
            return s;
        }
        let n = self.rules.len();
        let mut i: usize = 0;
        while i < n
            invariant
                n == self.rules@.len(),
                before == rule_queues(self.rules@),
                before == rule_queues(old(self).rules@),
                self.scenarios@ == old(self).scenarios@,
                first_serial(self.scenarios@) is None,
                i <= n,
                forall|j: int| 0 <= j < i ==> first_serial((#[trigger] before[j]).1) is None,
                first_serial_rule(before) matches Some(p) ==> 0 <= p < before.len() && first_serial(before[p].1) is Some
                    && forall|j: int| 0 <= j < p ==> first_serial((#[trigger] before[j]).1) is None,
                first_serial_rule(before) is None ==> forall|j: int| 0 <= j < before.len() ==> first_serial((#[trigger] before[j]).1) is None,
            decreases n - i,
        {
            if let Some(k) = find_serial(&self.rules[i].1) {
                assert(first_serial(before[i as int].1) == Some(k as int));
                assert(first_serial_rule(before) == Some(i as int));
                proof {
                    lemma_first_serial_props(before[i as int].1);
                }
                let (id, mut q) = self.rules.remove(i);
                let s = q.remove(k);
                self.rules.insert(i, (id, q));
                proof {
                    let after = rule_queues(self.rules@);
                    assert(after =~= before.update(i as int, (before[i as int].0, before[i as int].1.remove(k as int))));
                    lemma_total_update(before, i as int, (before[i as int].0, before[i as int].1.remove(k as int)));
                    lemma_total_nonnegative(after);
                }
                return s;
            }
            assert(first_serial(before[i as int].1) is None);
            i += 1;
        }
        assert(first_serial_rule(before) is None);
        self.next_in_order()
    }

    /// Takes the first scenario directly inside the feature, otherwise the
    /// first one of the first rule that has any.
    fn next_in_order(&mut self) -> (r: Option<ScenarioItem>)
        ensures
            ({
                let before = rule_queues(old(self).rules@);
                let after = rule_queues(final(self).rules@);
                if old(self).scenarios@.len() > 0 {
                    &&& r == Some(old(self).scenarios@[0])
                    &&& final(self).scenarios@ == old(self).scenarios@.drop_first()
                    &&& after == before
                } else {
                    &&& final(self).scenarios@ == old(self).scenarios@
                    &&& match first_nonempty(before) {
                        Some(i) => r == Some(before[i].1[0]) && after == before.update(i, (before[i].0, before[i].1.drop_first())),
                        None => r is None && after == before,
                    }
                }
            }),
            r is None <==> old(self).total() == 0,
            r is Some ==> final(self).total() == old(self).total() - 1,
    {
        let ghost before = rule_queues(self.rules@);
        proof {
            lemma_total_nonnegative(before);
            lemma_first_nonempty_props(before);
        }
        if let Some(s) = self.scenarios.pop_front() {
            return Some(s);
        }
        let n = self.rules.len();
        let mut i: usize = 0;
        while i < n
            invariant
                n == self.rules@.len(),
                before == rule_queues(self.rules@),
                before == rule_queues(old(self).rules@),
                self.scenarios@ == old(self).scenarios@,
                self.scenarios@.len() == 0,
                i <= n,
                forall|j: int| 0 <= j < i ==> (#[trigger] before[j]).1.len() == 0,
                first_nonempty(before) matches Some(p) ==> 0 <= p < before.len() && before[p].1.len() > 0
                    && forall|j: int| 0 <= j < p ==> (#[trigger] before[j]).1.len() == 0,
                first_nonempty(before) is None ==> forall|j: int| 0 <= j < before.len() ==> (#[trigger] before[j]).1.len() == 0,
                rules_total(before) >= 0,
                rules_total(before) == 0 <==> first_nonempty(before) is None,
            decreases n - i,
        {
            if self.rules[i].1.len() > 0 {
                assert(before[i as int].1.len() > 0);
                assert(first_nonempty(before) == Some(i as int));
                let (id, mut q) = self.rules.remove(i);
                let s = q.pop_front();
                self.rules.insert(i, (id, q));
                proof {
                    let after = rule_queues(self.rules@);
                    assert(after =~= before.update(i as int, (before[i as int].0, before[i as int].1.drop_first())));
                    lemma_total_update(before, i as int, (before[i as int].0, before[i as int].1.drop_first()));
                }
                return s;
            }
            assert(before[i as int].1.len() == 0);
            i += 1;
        }
        None
    }

    /// Whether no scenario is queued.
    pub fn is_empty(&self) -> (r: bool)
        ensures
            r <==> self.total() == 0,
    {
        let ghost qs = rule_queues(self.rules@);
        proof {
            lemma_total_nonnegative(qs);
            lemma_first_nonempty_props(qs);
        }
        if self.scenarios.len() > 0 {
            return false;
        }
        let n = self.rules.len();
        let mut i: usize = 0;
        while i < n
            invariant
                n == self.rules@.len(),
                qs == rule_queues(self.rules@),
                self.scenarios@.len() == 0,
                i <= n,
                forall|j: int| 0 <= j < i ==> (#[trigger] qs[j]).1.len() == 0,
                first_nonempty(qs) matches Some(p) ==> 0 <= p < qs.len() && qs[p].1.len() > 0,
                first_nonempty(qs) is None ==> forall|j: int| 0 <= j < qs.len() ==> (#[trigger] qs[j]).1.len() == 0,
                rules_total(qs) == 0 <==> first_nonempty(qs) is None,
                rules_total(qs) >= 0,
            decreases n - i,
        {
            if self.rules[i].1.len() > 0 {
                assert(qs[i as int].1.len() > 0);
                return false;
            }
            i += 1;
        }
        assert(first_nonempty(qs) is None);
        true
    }

    /// Number of queued scenarios.
    pub fn total_scenarios(&self) -> (n: usize)
        requires
            self.total() <= usize::MAX,
        ensures
            n == self.total(),
    {
        let ghost qs = rule_queues(self.rules@);
        let mut sum: usize = self.scenarios.len();
        let n = self.rules.len();
        let mut i: usize = 0;
        while i < n
            invariant
                n == self.rules@.len(),
                qs == rule_queues(self.rules@),
                i <= n,
                sum == self.scenarios@.len() + rules_total(qs.take(i as int)),
                self.scenarios@.len() + rules_total(qs) <= usize::MAX,
            decreases n - i,
        {
            proof {
                assert(qs.take(i + 1).drop_last() =~= qs.take(i as int));
                lemma_total_prefix(qs, i + 1);
            }
            sum = sum + self.rules[i].1.len();
            i += 1;
        }
        assert(qs.take(n as int) =~= qs);
        sum
    }
}

/// The total of a prefix is at most the total.
proof fn lemma_total_prefix(rules: Seq<(usize, Seq<ScenarioItem>)>, k: int)
    requires
        0 <= k <= rules.len(),
    ensures
        0 <= rules_total(rules.take(k)) <= rules_total(rules),
    decreases rules.len(),
{
    lemma_total_nonnegative(rules.take(k));
    if k < rules.len() {
        assert(rules.drop_last().take(k) =~= rules.take(k));
        lemma_total_prefix(rules.drop_last(), k);
    } else {
        assert(rules.take(k) =~= rules);
    }
}

} // verus!
