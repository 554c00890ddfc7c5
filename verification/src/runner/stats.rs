//! Statistics of a run: how many features, rules, scenarios and steps
//! started, passed, were skipped, failed or timed out.

use vstd::prelude::*;

use crate::runner::basic::cli_and_types::{elapsed_since, instant_now};
use crate::time::Duration;

verus! {

/// How something failed.
#[derive(Clone, Copy, Debug, PartialEq, Eq, Structural)]
pub enum FailureKind {
    /// A step panicked.
    Panic,
    /// A step ran out of time.
    TimedOut,
}

/// Event of running a step.
#[derive(Clone, Copy, Debug, PartialEq, Eq, Structural)]
pub enum StepEvent {
    /// The step started.
    Starting,
    /// No step function matches the step.
    Unimplemented,
    /// The step was skipped.
    Skipped,
    /// The step passed.
    Passed,
    /// The step failed.
    Failed(FailureKind),
}

/// Event of running a scenario.
#[derive(Clone, Copy, Debug, PartialEq, Eq, Structural)]
pub enum ScenarioEvent {
    /// The scenario started.
    Starting,
    /// Event of a background step.
    Background(StepEvent),
    /// Event of a scenario step.
    Step(StepEvent),
    /// The scenario was skipped.
    Skipped,
    /// The scenario passed.
    Passed,
    /// The scenario failed.
    Failed(FailureKind),
}

/// Event of running a rule.
#[derive(Clone, Copy, Debug, PartialEq, Eq, Structural)]
pub enum RuleEvent {
    /// The rule started.
    Starting,
    /// Event of one of its scenarios.
    Scenario(ScenarioEvent),
    /// The rule was skipped.
    Skipped,
    /// The rule passed.
    Passed,
    /// The rule failed.
    Failed(FailureKind),
}

/// Event of running a feature.
#[derive(Clone, Copy, Debug, PartialEq, Eq, Structural)]
pub enum FeatureEvent {
    /// The feature started.
    Starting,
    /// Event of a scenario directly in the feature.
    Scenario(ScenarioEvent),
    /// Event of a rule.
    Rule(RuleEvent),
    /// The feature finished.
    Finished,
}

/// Counts of events of one kind of item.
#[derive(Clone, Copy, Debug, PartialEq, Eq, Structural)]
pub struct Stats {
    /// Items started (for steps: every event seen).
    pub total: u32,
    /// Items skipped.
    pub skipped: u32,
    /// Items passed.
    pub passed: u32,
    /// Items failed.
    pub failed: u32,
    /// Items timed out.
    pub timed_out: u32,
}

impl Default for Stats {
    fn default() -> (s: Self)
        ensures
            s == Stats::zero_spec(),
    {
        Stats { total: 0, skipped: 0, passed: 0, failed: 0, timed_out: 0 }
    }
}

impl Stats {
    /// All counts zero.
    pub open spec fn zero_spec() -> Self {
        Stats { total: 0, skipped: 0, passed: 0, failed: 0, timed_out: 0 }
    }

    /// Every count can grow by one.
    pub open spec fn has_room(self) -> bool {
        &&& self.total < u32::MAX
        &&& self.skipped < u32::MAX
        &&& self.passed < u32::MAX
        &&& self.failed < u32::MAX
        &&& self.timed_out < u32::MAX
    }

    /// Whether anything failed or timed out.
    pub open spec fn failed_spec(self) -> bool {
        self.failed > 0 || self.timed_out > 0
    }

    /// Whether anything failed or timed out.
    pub fn failed(&self) -> (r: bool)
        ensures
            r == self.failed_spec(),
    {
        self.failed > 0 || self.timed_out > 0
    }

    /// Counts after one step event: every event counts in `total`, and its
    /// outcome, if it has one, in its own count.
    pub open spec fn after_step(self, e: StepEvent) -> Self {
        let s = Stats { total: (self.total + 1) as u32, ..self };
        match e {
            StepEvent::Starting => s,
            StepEvent::Unimplemented | StepEvent::Skipped => Stats { skipped: (s.skipped + 1) as u32, ..s },
            StepEvent::Passed => Stats { passed: (s.passed + 1) as u32, ..s },
            StepEvent::Failed(FailureKind::Panic) => Stats { failed: (s.failed + 1) as u32, ..s },
            StepEvent::Failed(FailureKind::TimedOut) => Stats { timed_out: (s.timed_out + 1) as u32, ..s },
        }
    }

    /// Counts after one event of a scenario, rule or feature: starting counts
    /// in `total`, an outcome in its own count.
    pub open spec fn after_outcome(self, started: bool, skipped: bool, passed: bool, failed: Option<FailureKind>) -> Self {
        if started {
            Stats { total: (self.total + 1) as u32, ..self }
        } else if skipped {
            Stats { skipped: (self.skipped + 1) as u32, ..self }
        } else if passed {
            Stats { passed: (self.passed + 1) as u32, ..self }
        } else {
            match failed {
                Some(FailureKind::Panic) => Stats { failed: (self.failed + 1) as u32, ..self },
                Some(FailureKind::TimedOut) => Stats { timed_out: (self.timed_out + 1) as u32, ..self },
                None => self,
            }
        }
    }

    /// Outcome counts never exceed what was started: the sum of skipped,
    /// passed, failed and timed out is at most the total.
    pub open spec fn consistent(self) -> bool {
        self.skipped + self.passed + self.failed + self.timed_out <= self.total
    }
}

/// Result of a whole run.
#[derive(Debug)]
pub struct RunResult {
    /// When the run started.
    pub started: std::time::Instant,
    /// How long the run took.
    pub elapsed: Duration,
    /// Statistics of features.
    pub features: Stats,
    /// Statistics of rules.
    pub rules: Stats,
    /// Statistics of scenarios.
    pub scenarios: Stats,
    /// Statistics of steps.
    pub steps: Stats,
}

impl RunResult {
    /// Whether a feature or a scenario failed or timed out.
    pub fn failed(&self) -> (r: bool)
        ensures
            r == (self.features.failed_spec() || self.scenarios.failed_spec()),
    {
        self.features.failed() || self.scenarios.failed()
    }
}

/// Collects [`Stats`] from the events of a run.
#[derive(Debug)]
pub struct StatsCollector {
    /// When the run started.
    pub started: std::time::Instant,
    /// Statistics of features.
    pub features: Stats,
    /// Statistics of rules.
    pub rules: Stats,
    /// Statistics of scenarios.
    pub scenarios: Stats,
    /// Statistics of steps.
    pub steps: Stats,
}

/// Statistics of scenarios and steps after one scenario event.
pub open spec fn scenario_counts(scenarios: Stats, steps: Stats, e: ScenarioEvent) -> (Stats, Stats) {
    match e {
        ScenarioEvent::Starting => (scenarios.after_outcome(true, false, false, None), steps),
        ScenarioEvent::Background(s) => (scenarios, steps.after_step(s)),
        ScenarioEvent::Step(s) => (scenarios, steps.after_step(s)),
        ScenarioEvent::Skipped => (scenarios.after_outcome(false, true, false, None), steps),
        ScenarioEvent::Passed => (scenarios.after_outcome(false, false, true, None), steps),
        ScenarioEvent::Failed(k) => (scenarios.after_outcome(false, false, false, Some(k)), steps),
    }
}

/// Counts of rules, scenarios and steps after one rule event.
pub open spec fn rule_counts(rules: Stats, scenarios: Stats, steps: Stats, e: RuleEvent) -> (Stats, Stats, Stats) {
    match e {
        RuleEvent::Starting => (rules.after_outcome(true, false, false, None), scenarios, steps),
        RuleEvent::Scenario(s) => {
            let (sc, st) = scenario_counts(scenarios, steps, s);
            (rules, sc, st)
        },
        RuleEvent::Skipped => (rules.after_outcome(false, true, false, None), scenarios, steps),
        RuleEvent::Passed => (rules.after_outcome(false, false, true, None), scenarios, steps),
        RuleEvent::Failed(k) => (rules.after_outcome(false, false, false, Some(k)), scenarios, steps),
    }
}

impl StatsCollector {
    /// Every count can grow by one.
    pub open spec fn has_room(self) -> bool {
        self.features.has_room() && self.rules.has_room() && self.scenarios.has_room()
            && self.steps.has_room()
    }

    /// A collector with all counts zero, started now.
    pub fn new() -> (c: Self)
        ensures
            c.features == Stats::zero_spec(),
            c.rules == Stats::zero_spec(),
            c.scenarios == Stats::zero_spec(),
            c.steps == Stats::zero_spec(),
    {
        StatsCollector {
            started: instant_now(),
            features: Stats::default(),
            rules: Stats::default(),
            scenarios: Stats::default(),
            steps: Stats::default(),
        }
    }

    /// Counts one step event.
    pub fn handle_step_event(&mut self, event: &StepEvent)
        requires
            old(self).steps.has_room(),
        ensures
            final(self).started == old(self).started,
            final(self).steps == old(self).steps.after_step(*event),
            final(self).features == old(self).features,
            final(self).rules == old(self).rules,
            final(self).scenarios == old(self).scenarios,
    {
        self.steps.total = self.steps.total + 1;
        match event {
            StepEvent::Starting => {},
            StepEvent::Unimplemented => {
                self.steps.skipped = self.steps.skipped + 1;
            },
            StepEvent::Skipped => {
                self.steps.skipped = self.steps.skipped + 1;
            },
            StepEvent::Passed => {
                self.steps.passed = self.steps.passed + 1;
            },
            StepEvent::Failed(FailureKind::Panic) => {
                self.steps.failed = self.steps.failed + 1;
            },
            StepEvent::Failed(FailureKind::TimedOut) => {
                self.steps.timed_out = self.steps.timed_out + 1;
            },
        }
    }

    /// Counts one scenario event, and the step event it carries.
    pub fn handle_scenario_event(&mut self, event: &ScenarioEvent)
        requires
            old(self).has_room(),
        ensures
            final(self).started == old(self).started,
            (final(self).scenarios, final(self).steps) == scenario_counts(
                old(self).scenarios,
                old(self).steps,
                *event,
            ),
            final(self).features == old(self).features,
            final(self).rules == old(self).rules,
    {
        match event {
            ScenarioEvent::Starting => {
                self.scenarios.total = self.scenarios.total + 1;
            },
            ScenarioEvent::Background(e) => self.handle_step_event(e),
            ScenarioEvent::Step(e) => self.handle_step_event(e),
            ScenarioEvent::Skipped => {
                self.scenarios.skipped = self.scenarios.skipped + 1;
            },
            ScenarioEvent::Passed => {
                self.scenarios.passed = self.scenarios.passed + 1;
            },
            ScenarioEvent::Failed(FailureKind::Panic) => {
                self.scenarios.failed = self.scenarios.failed + 1;
            },
            ScenarioEvent::Failed(FailureKind::TimedOut) => {
                self.scenarios.timed_out = self.scenarios.timed_out + 1;
            },
        }
    }

    /// Counts one rule event, and the scenario event it carries.
    pub fn handle_rule_event(&mut self, event: &RuleEvent)
        requires
            old(self).has_room(),
        ensures
            final(self).started == old(self).started,
            final(self).features == old(self).features,
            (final(self).rules, final(self).scenarios, final(self).steps) == rule_counts(
                old(self).rules,
                old(self).scenarios,
                old(self).steps,
                *event,
            ),
    {
        match event {
            RuleEvent::Starting => {
                self.rules.total = self.rules.total + 1;
            },
            RuleEvent::Scenario(e) => self.handle_scenario_event(e),
            RuleEvent::Skipped => {
                self.rules.skipped = self.rules.skipped + 1;
            },
            RuleEvent::Passed => {
                self.rules.passed = self.rules.passed + 1;
            },
            RuleEvent::Failed(FailureKind::Panic) => {
                self.rules.failed = self.rules.failed + 1;
            },
            RuleEvent::Failed(FailureKind::TimedOut) => {
                self.rules.timed_out = self.rules.timed_out + 1;
            },
        }
    }

    /// Counts one feature event, and the rule or scenario event it carries;
    /// a finished feature is not counted.
    pub fn handle_feature_event(&mut self, event: &FeatureEvent)
        requires
            old(self).has_room(),
        ensures
            final(self).started == old(self).started,
            match *event {
                FeatureEvent::Starting => final(self).features == old(self).features.after_outcome(true, false, false, None)
                    && final(self).rules == old(self).rules && final(self).scenarios == old(self).scenarios
                    && final(self).steps == old(self).steps,
                FeatureEvent::Finished => final(self).features == old(self).features
                    && final(self).rules == old(self).rules && final(self).scenarios == old(self).scenarios
                    && final(self).steps == old(self).steps,
                FeatureEvent::Scenario(e) => final(self).features == old(self).features
                    && final(self).rules == old(self).rules
                    && (final(self).scenarios, final(self).steps) == scenario_counts(old(self).scenarios, old(self).steps, e),
                FeatureEvent::Rule(e) => final(self).features == old(self).features
                    && (final(self).rules, final(self).scenarios, final(self).steps) == rule_counts(
                    old(self).rules,
                    old(self).scenarios,
                    old(self).steps,
                    e,
                ),
            },
    {
        match event {
            FeatureEvent::Starting => {
                self.features.total = self.features.total + 1;
            },
            FeatureEvent::Scenario(e) => self.handle_scenario_event(e),
            FeatureEvent::Rule(e) => self.handle_rule_event(e),
            FeatureEvent::Finished => {},
        }
    }

    /// Finishes collecting: the counts, and how long the run took.
    pub fn collect(self) -> (r: RunResult)
        ensures
            r.started == self.started,
            r.features == self.features,
            r.rules == self.rules,
            r.scenarios == self.scenarios,
            r.steps == self.steps,
    {
        let elapsed = elapsed_since(&self.started);
        RunResult {
            elapsed,
            started: self.started,
            features: self.features,
            rules: self.rules,
            scenarios: self.scenarios,
            steps: self.steps,
        }
    }
}

/// Counting a step event keeps step outcomes within the total.
pub proof fn lemma_step_counts_stay_consistent(s: Stats, e: StepEvent)
    requires
        s.consistent(),
        s.has_room(),
    ensures
        s.after_step(e).consistent(),
        s.after_step(e).total == s.total + 1,
{
}

/// Each step event is counted once in `total` and in exactly the count of
/// its outcome: a skipped or unimplemented step in `skipped`, a passed one
/// in `passed`, a panicked one in `failed`, a timed-out one in `timed_out`,
/// and a starting one in no outcome count.
pub proof fn lemma_step_event_counted_by_outcome(s: Stats, e: StepEvent)
    requires
        s.has_room(),
    ensures
        s.after_step(e).total == s.total + 1,
        s.after_step(e).skipped == s.skipped + (if e is Skipped || e is Unimplemented { 1int } else { 0int }),
        s.after_step(e).passed == s.passed + (if e is Passed { 1int } else { 0int }),
        s.after_step(e).failed == s.failed + (if e == StepEvent::Failed(FailureKind::Panic) { 1int } else { 0int }),
        s.after_step(e).timed_out == s.timed_out + (if e == StepEvent::Failed(FailureKind::TimedOut) { 1int } else { 0int }),
{
}

/// A step's event raises `passed` exactly when the step passed, and
/// `skipped` exactly when it was skipped or had no step function.
pub proof fn lemma_skipped_step_is_not_passed(s: Stats, e: StepEvent)
    requires
        s.has_room(),
    ensures
        s.after_step(e).passed > s.passed <==> e is Passed,
        s.after_step(e).skipped > s.skipped <==> (e is Skipped || e is Unimplemented),
{
}

} // verus!
