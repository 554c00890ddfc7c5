//! Key occurrences in a lifecycle of a test run.

use vstd::prelude::*;

use std::sync::Arc;

use crate::gherkin;
use crate::step::captures::{capture_spans, locations_clone, locations_regex};
use crate::step::{AmbiguousMatchError, Location};
use crate::text::push_str;

verus! {

/// Number of retry attempts for a scenario.
#[derive(Clone, Copy, Debug, PartialEq, Eq, Structural, Hash)]
pub struct Retries {
    /// Current retry attempt.
    pub current: usize,
    /// Available retries left.
    pub left: usize,
}

impl Retries {
    /// Creates initial [`Retries`]: no attempt made yet, `left` retries
    /// available.
    pub fn initial(left: usize) -> (r: Self)
        ensures
            r.current == 0,
            r.left == left,
    {
        Self { left, current: 0 }
    }

    /// Returns the next retry attempt, if any retry is left.
    pub fn next_try(self) -> (r: Option<Self>)
        requires
            self.left > 0 ==> self.current < usize::MAX,
        ensures
            self.left == 0 <==> r is None,
            r matches Some(n) ==> n.left == self.left - 1 && n.current == self.current + 1,
    {
        if self.left == 0 {
            None
        } else {
            Some(Self { left: self.left - 1, current: self.current + 1 })
        }
    }
}

/// Message a panic carried, as far as it could be read.
pub type Info = String;

/// Arbitrary event, paired with its metadata.
#[derive(Clone, Copy, Debug)]
pub struct Event<T> {
    /// Actual value of this [`Event`].
    pub value: T,
}

/// Metadata of an [`Event`], detached from its value.
pub type Metadata = Event<()>;

impl<T> Event<T> {
    /// Creates a new [`Event`] out of the given `value`.
    pub fn new(value: T) -> (e: Self)
        ensures
            e.value == value,
    {
        Event { value }
    }

    /// Unwraps the inner value, dropping the metadata.
    pub fn into_inner(self) -> (v: T)
        ensures
            v == self.value,
    {
        self.value
    }

    /// Splits this [`Event`] into its value and its detached metadata.
    pub fn split(self) -> (r: (T, Metadata))
        ensures
            r.0 == self.value,
    {
        self.replace(())
    }

    /// Replaces the inner value with the given one, dropping the old one.
    pub fn insert<V>(self, value: V) -> (e: Event<V>)
        ensures
            e.value == value,
    {
        self.replace(value).1
    }

    /// Maps the inner value with the given function, keeping the metadata.
    pub fn map<V, F: FnOnce(T) -> V>(self, f: F) -> (e: Event<V>)
        requires
            f.requires((self.value,)),
        ensures
            f.ensures((self.value,), e.value),
    {
        let (val, meta) = self.split();
        meta.insert(f(val))
    }

    /// Replaces the inner value with the given one, returning the old one.
    pub fn replace<V>(self, value: V) -> (r: (T, Event<V>))
        ensures
            r.0 == self.value,
            r.1.value == value,
    {
        (self.value, Event { value })
    }
}

impl Event<()> {
    /// Wraps the given `value` with this metadata.
    pub fn wrap<V>(self, value: V) -> (e: Event<V>)
        ensures
            e.value == value,
    {
        self.replace(value).1
    }
}

/// Type of hook run before or after all steps of a scenario.
#[derive(Clone, Copy, Debug, PartialEq, Eq, Structural)]
pub enum HookType {
    /// Run on each scenario before its steps.
    Before,
    /// Run on each scenario after its steps.
    After,
}

impl HookType {
    /// Display form: the variant's name.
    pub fn to_string(&self) -> (s: String)
        ensures
            s@ == match self {
                HookType::Before => "Before"@,
                HookType::After => "After"@,
            },
    {
        let mut s = String::new();
        match self {
            HookType::Before => push_str(&mut s, "Before"),
            HookType::After => push_str(&mut s, "After"),
        }
        s
    }
}

/// Shared handle on a parsed Gherkin item, cheap to clone.
#[derive(Debug)]
pub struct Source<T>(Arc<T>);

impl<T> Source<T> {
    /// Wraps the provided `value` into a new [`Source`].
    pub fn new(value: T) -> (s: Self)
        ensures
            *s.get() == value,
    {
        Source(Arc::new(value))
    }

    /// The wrapped value.
    pub closed spec fn get(&self) -> &T {
        &*self.0
    }

    /// Returns a reference to the wrapped value.
    pub fn value(&self) -> (v: &T)
        ensures
            *v == *self.get(),
    {
        &*self.0
    }
}

impl<T> core::ops::Deref for Source<T> {
    type Target = T;

    fn deref(&self) -> (v: &T)
        ensures
            *v == *self.get(),
    {
        &*self.0
    }
}

impl<T> Clone for Source<T> {
    fn clone(&self) -> (c: Self)
        ensures
            c == *self,
    {
        Source(Arc::clone(&self.0))
    }
}

/// Error of executing a step.
#[derive(Debug)]
pub enum StepError {
    /// The step matches no step pattern.
    NotFound,
    /// The step matches several step patterns.
    AmbiguousMatch(AmbiguousMatchError),
    /// The step panicked.
    Panic(Info),
}

/// `b` is a copy of `a`: the same kind of error, with the same possible
/// matches (patterns and locations) or the same message.
pub open spec fn same_step_error(a: StepError, b: StepError) -> bool {
    match (a, b) {
        (StepError::NotFound, StepError::NotFound) => true,
        (StepError::AmbiguousMatch(x), StepError::AmbiguousMatch(y)) =>
            crate::step::error::matches_view(x.possible_matches@) == crate::step::error::matches_view(y.possible_matches@),
        (StepError::Panic(x), StepError::Panic(y)) => x == y,
        _ => false,
    }
}

impl Clone for StepError {
    fn clone(&self) -> (c: Self)
        ensures
            same_step_error(*self, c),
    {
        match self {
            StepError::NotFound => StepError::NotFound,
            StepError::AmbiguousMatch(e) => StepError::AmbiguousMatch(e.clone()),
            StepError::Panic(m) => StepError::Panic(m.clone()),
        }
    }
}

impl StepError {
    /// Display form of this error.
    pub fn to_string(&self) -> (s: String)
        ensures
            match self {
                StepError::NotFound => s@ == "Step doesn't match any function"@,
                StepError::AmbiguousMatch(e) => s@ == "Step match is ambiguous: "@
                    + "Possible matches:"@ + crate::step::error::matches_text(
                    crate::step::error::matches_view(e.possible_matches@)),
                StepError::Panic(m) => s@ == "Step panicked. Captured output: "@ + m@,
            },
    {
        let mut s = String::new();
        match self {
            StepError::NotFound => push_str(&mut s, "Step doesn't match any function"),
            StepError::AmbiguousMatch(e) => {
                push_str(&mut s, "Step match is ambiguous: ");
                let t = e.to_string();
                push_str(&mut s, t.as_str());
            },
            StepError::Panic(m) => {
                push_str(&mut s, "Step panicked. Captured output: ");
                push_str(&mut s, m.as_str());
            },
        }
        s
    }
}

/// Event explaining why a scenario has finished.
#[derive(Clone, Debug)]
pub enum ScenarioFinished {
    /// The `Before` hook failed.
    BeforeHookFailed(Info),
    /// The last step passed.
    StepPassed,
    /// A step was skipped.
    StepSkipped,
    /// A step failed.
    StepFailed(Option<::regex::CaptureLocations>, Option<Location>, StepError),
}

/// The same capture locations: the same offsets, for the same regex.
pub open spec fn same_captures(a: ::regex::CaptureLocations, b: ::regex::CaptureLocations) -> bool {
    capture_spans(a) == capture_spans(b) && locations_regex(a) == locations_regex(b)
}

/// The same optional capture locations.
pub open spec fn same_opt_captures(a: Option<::regex::CaptureLocations>, b: Option<::regex::CaptureLocations>) -> bool {
    match (a, b) {
        (Some(x), Some(y)) => same_captures(x, y),
        (None, None) => true,
        _ => false,
    }
}

pub(crate) fn clone_opt_captures(c: &Option<::regex::CaptureLocations>) -> (r: Option<::regex::CaptureLocations>)
    ensures
        same_opt_captures(*c, r),
{
    match c {
        Some(x) => Some(locations_clone(x)),
        None => None,
    }
}

fn clone_world<W>(w: &Option<Arc<W>>) -> (r: Option<Arc<W>>)
    ensures
        r == *w,
{
    match w {
        Some(a) => Some(Arc::clone(a)),
        None => None,
    }
}

/// Event specific to a particular step.
#[derive(Debug)]
pub enum Step<W> {
    /// The step's execution started.
    Started,
    /// The step was skipped: it matches no step function.
    Skipped,
    /// The step passed.
    Passed {
        /// Capture groups of the matched pattern.
        captures: ::regex::CaptureLocations,
        /// Location of the step function.
        location: Option<Location>,
    },
    /// The step failed.
    Failed {
        /// Capture groups of the matched pattern, if one matched.
        captures: Option<::regex::CaptureLocations>,
        /// Location of the step function, if one matched.
        location: Option<Location>,
        /// The world as the failure left it, if it was kept.
        world: Option<Arc<W>>,
        /// Why the step failed.
        error: StepError,
    },
}

/// `b` is a copy of `a`: the same variant with the same contents.
pub open spec fn same_step_event<W>(a: Step<W>, b: Step<W>) -> bool {
    match (a, b) {
        (Step::Started, Step::Started) => true,
        (Step::Skipped, Step::Skipped) => true,
        (Step::Passed { captures: c1, location: l1 }, Step::Passed { captures: c2, location: l2 }) =>
            same_captures(c1, c2) && l1 == l2,
        (
            Step::Failed { captures: c1, location: l1, world: w1, error: e1 },
            Step::Failed { captures: c2, location: l2, world: w2, error: e2 },
        ) => same_opt_captures(c1, c2) && l1 == l2 && w1 == w2 && same_step_error(e1, e2),
        _ => false,
    }
}

impl<W> Clone for Step<W> {
    fn clone(&self) -> (c: Self)
        ensures
            same_step_event(*self, c),
    {
        match self {
            Step::Started => Step::Started,
            Step::Skipped => Step::Skipped,
            Step::Passed { captures, location } => Step::Passed { captures: locations_clone(captures), location: *location },
            Step::Failed { captures, location, world, error } => Step::Failed {
                captures: clone_opt_captures(captures),
                location: *location,
                world: clone_world(world),
                error: error.clone(),
            },
        }
    }
}

/// Event of a hook.
#[derive(Debug)]
pub enum Hook<W> {
    /// The hook's execution started.
    Started,
    /// The hook passed.
    Passed,
    /// The hook failed: the world as it left it, if kept, and the panic's
    /// message.
    Failed(Option<Arc<W>>, Info),
}

impl<W> Clone for Hook<W> {
    fn clone(&self) -> (c: Self)
        ensures
            c == *self,
    {
        match self {
            Hook::Started => Hook::Started,
            Hook::Passed => Hook::Passed,
            Hook::Failed(w, i) => Hook::Failed(clone_world(w), i.clone()),
        }
    }
}

/// Event specific to a particular scenario.
#[derive(Debug)]
pub enum Scenario<W> {
    /// The scenario's execution started.
    Started,
    /// Event of a hook.
    Hook(HookType, Hook<W>),
    /// Event of a background step.
    Background(Source<gherkin::Step>, Step<W>),
    /// Event of a step.
    Step(Source<gherkin::Step>, Step<W>),
    /// The scenario emitted a log entry.
    Log(String),
    /// The scenario's execution finished.
    Finished,
}

/// `b` is a copy of `a`: the same variant with the same contents.
pub open spec fn same_scenario_event<W>(a: Scenario<W>, b: Scenario<W>) -> bool {
    match (a, b) {
        (Scenario::Started, Scenario::Started) => true,
        (Scenario::Hook(t1, h1), Scenario::Hook(t2, h2)) => t1 == t2 && h1 == h2,
        (Scenario::Background(s1, e1), Scenario::Background(s2, e2)) => *s1.get() == *s2.get() && same_step_event(e1, e2),
        (Scenario::Step(s1, e1), Scenario::Step(s2, e2)) => *s1.get() == *s2.get() && same_step_event(e1, e2),
        (Scenario::Log(m1), Scenario::Log(m2)) => m1 == m2,
        (Scenario::Finished, Scenario::Finished) => true,
        _ => false,
    }
}

impl<W> Clone for Scenario<W> {
    fn clone(&self) -> (c: Self)
        ensures
            same_scenario_event(*self, c),
    {
        match self {
            Scenario::Started => Scenario::Started,
            Scenario::Hook(ty, ev) => Scenario::Hook(*ty, ev.clone()),
            Scenario::Background(bg, ev) => Scenario::Background(bg.clone(), ev.clone()),
            Scenario::Step(st, ev) => Scenario::Step(st.clone(), ev.clone()),
            Scenario::Log(msg) => Scenario::Log(msg.clone()),
            Scenario::Finished => Scenario::Finished,
        }
    }
}

impl<W> Scenario<W> {
    /// Event of a hook starting.
    pub fn hook_started(which: HookType) -> (e: Self)
        ensures
            e == Scenario::<W>::Hook(which, Hook::Started),
    {
        Scenario::Hook(which, Hook::Started)
    }

    /// Event of a hook passing.
    pub fn hook_passed(which: HookType) -> (e: Self)
        ensures
            e == Scenario::<W>::Hook(which, Hook::Passed),
    {
        Scenario::Hook(which, Hook::Passed)
    }

    /// Event of a hook failing.
    pub fn hook_failed(which: HookType, world: Option<Arc<W>>, info: Info) -> (e: Self)
        ensures
            e == Scenario::Hook(which, Hook::Failed(world, info)),
    {
        Scenario::Hook(which, Hook::Failed(world, info))
    }

    /// Event of a step starting.
    pub fn step_started(step: Source<gherkin::Step>) -> (e: Self)
        ensures
            e == Scenario::<W>::Step(step, Step::Started),
    {
        Scenario::Step(step, Step::Started)
    }

    /// Event of a background step starting.
    pub fn background_step_started(step: Source<gherkin::Step>) -> (e: Self)
        ensures
            e == Scenario::<W>::Background(step, Step::Started),
    {
        Scenario::Background(step, Step::Started)
    }

    /// Event of a step passing.
    pub fn step_passed(step: Source<gherkin::Step>, captures: ::regex::CaptureLocations, loc: Option<Location>) -> (e: Self)
        ensures
            e == Scenario::<W>::Step(step, Step::Passed { captures, location: loc }),
    {
        Scenario::Step(step, Step::Passed { captures, location: loc })
    }

    /// Event of a background step passing.
    pub fn background_step_passed(step: Source<gherkin::Step>, captures: ::regex::CaptureLocations, loc: Option<Location>) -> (e: Self)
        ensures
            e == Scenario::<W>::Background(step, Step::Passed { captures, location: loc }),
    {
        Scenario::Background(step, Step::Passed { captures, location: loc })
    }

    /// Event of a step being skipped.
    pub fn step_skipped(step: Source<gherkin::Step>) -> (e: Self)
        ensures
            e == Scenario::<W>::Step(step, Step::Skipped),
    {
        Scenario::Step(step, Step::Skipped)
    }

    /// Event of a background step being skipped.
    pub fn background_step_skipped(step: Source<gherkin::Step>) -> (e: Self)
        ensures
            e == Scenario::<W>::Background(step, Step::Skipped),
    {
        Scenario::Background(step, Step::Skipped)
    }

    /// Event of a step failing.
    pub fn step_failed(
        step: Source<gherkin::Step>,
        captures: Option<::regex::CaptureLocations>,
        loc: Option<Location>,
        world: Option<Arc<W>>,
        info: StepError,
    ) -> (e: Self)
        ensures
            e == Scenario::Step(step, Step::Failed { captures, location: loc, world, error: info }),
    {
        Scenario::Step(step, Step::Failed { captures, location: loc, world, error: info })
    }

    /// Event of a background step failing.
    pub fn background_step_failed(
        step: Source<gherkin::Step>,
        captures: Option<::regex::CaptureLocations>,
        loc: Option<Location>,
        world: Option<Arc<W>>,
        info: StepError,
    ) -> (e: Self)
        ensures
            e == Scenario::Background(step, Step::Failed { captures, location: loc, world, error: info }),
    {
        Scenario::Background(step, Step::Failed { captures, location: loc, world, error: info })
    }

    /// Pairs this event with the retries of its scenario.
    pub fn with_retries(self, retries: Option<Retries>) -> (e: RetryableScenario<W>)
        ensures
            e.event == self,
            e.retries == retries,
    {
        RetryableScenario { event: self, retries }
    }
}

/// Event of a scenario that may be retried.
#[derive(Debug)]
pub struct RetryableScenario<W> {
    /// The scenario event.
    pub event: Scenario<W>,
    /// Retries of the scenario, when it may be retried.
    pub retries: Option<Retries>,
}

impl<W> Clone for RetryableScenario<W> {
    fn clone(&self) -> (c: Self)
        ensures
            same_scenario_event(self.event, c.event),
            c.retries == self.retries,
    {
        RetryableScenario { event: self.event.clone(), retries: self.retries }
    }
}

/// Event specific to a particular rule.
#[derive(Debug)]
pub enum Rule<W> {
    /// The rule's execution started.
    Started,
    /// Event of a scenario of the rule.
    Scenario(Source<gherkin::Scenario>, RetryableScenario<W>),
    /// The rule's execution finished.
    Finished,
}

/// `b` is a copy of `a`: the same variant with the same contents.
pub open spec fn same_rule_event<W>(a: Rule<W>, b: Rule<W>) -> bool {
    match (a, b) {
        (Rule::Started, Rule::Started) => true,
        (Rule::Scenario(s1, e1), Rule::Scenario(s2, e2)) =>
            *s1.get() == *s2.get() && same_scenario_event(e1.event, e2.event) && e1.retries == e2.retries,
        (Rule::Finished, Rule::Finished) => true,
        _ => false,
    }
}

impl<W> Clone for Rule<W> {
    fn clone(&self) -> (c: Self)
        ensures
            same_rule_event(*self, c),
    {
        match self {
            Rule::Started => Rule::Started,
            Rule::Scenario(s, ev) => Rule::Scenario(s.clone(), ev.clone()),
            Rule::Finished => Rule::Finished,
        }
    }
}

/// Event specific to a particular feature.
#[derive(Debug)]
pub enum Feature<W> {
    /// The feature's execution started.
    Started,
    /// Event of a rule of the feature.
    Rule(Source<gherkin::Rule>, Rule<W>),
    /// Event of a scenario directly inside the feature.
    Scenario(Source<gherkin::Scenario>, RetryableScenario<W>),
    /// The feature's execution finished.
    Finished,
}

/// `b` is a copy of `a`: the same variant with the same contents.
pub open spec fn same_feature_event<W>(a: Feature<W>, b: Feature<W>) -> bool {
    match (a, b) {
        (Feature::Started, Feature::Started) => true,
        (Feature::Rule(r1, e1), Feature::Rule(r2, e2)) => *r1.get() == *r2.get() && same_rule_event(e1, e2),
        (Feature::Scenario(s1, e1), Feature::Scenario(s2, e2)) =>
            *s1.get() == *s2.get() && same_scenario_event(e1.event, e2.event) && e1.retries == e2.retries,
        (Feature::Finished, Feature::Finished) => true,
        _ => false,
    }
}

impl<W> Clone for Feature<W> {
    fn clone(&self) -> (c: Self)
        ensures
            same_feature_event(*self, c),
    {
        match self {
            Feature::Started => Feature::Started,
            Feature::Rule(r, ev) => Feature::Rule(r.clone(), ev.clone()),
            Feature::Scenario(s, ev) => Feature::Scenario(s.clone(), ev.clone()),
            Feature::Finished => Feature::Finished,
        }
    }
}

/// Top-level event of a run.
#[derive(Debug)]
pub enum Cucumber<W> {
    /// The run started.
    Started,
    /// Event of a feature.
    Feature(Source<gherkin::Feature>, Feature<W>),
    /// All features were parsed.
    ParsingFinished {
        /// Number of parsed features.
        features: usize,
        /// Number of parsed rules.
        rules: usize,
        /// Number of parsed scenarios.
        scenarios: usize,
        /// Number of parsed steps.
        steps: usize,
        /// Number of errors met while parsing.
        parser_errors: usize,
    },
    /// The run finished.
    Finished,
}

/// `b` is a copy of `a`: the same variant with the same contents.
pub open spec fn same_cucumber_event<W>(a: Cucumber<W>, b: Cucumber<W>) -> bool {
    match (a, b) {
        (Cucumber::Started, Cucumber::Started) => true,
        (Cucumber::Feature(f1, e1), Cucumber::Feature(f2, e2)) => *f1.get() == *f2.get() && same_feature_event(e1, e2),
        (
            Cucumber::ParsingFinished { features: a1, rules: a2, scenarios: a3, steps: a4, parser_errors: a5 },
            Cucumber::ParsingFinished { features: b1, rules: b2, scenarios: b3, steps: b4, parser_errors: b5 },
        ) => a1 == b1 && a2 == b2 && a3 == b3 && a4 == b4 && a5 == b5,
        (Cucumber::Finished, Cucumber::Finished) => true,
        _ => false,
    }
}

impl<W> Clone for Cucumber<W> {
    fn clone(&self) -> (c: Self)
        ensures
            same_cucumber_event(*self, c),
    {
        match self {
            Cucumber::Started => Cucumber::Started,
            Cucumber::Feature(f, ev) => Cucumber::Feature(f.clone(), ev.clone()),
            Cucumber::ParsingFinished { features, rules, scenarios, steps, parser_errors } => Cucumber::ParsingFinished {
                features: *features,
                rules: *rules,
                scenarios: *scenarios,
                steps: *steps,
                parser_errors: *parser_errors,
            },
            Cucumber::Finished => Cucumber::Finished,
        }
    }
}

/// Event of a scenario: inside its rule when it has one, directly inside
/// its feature otherwise.
pub open spec fn scenario_event<W>(
    feat: Source<gherkin::Feature>,
    rule: Option<Source<gherkin::Rule>>,
    scenario: Source<gherkin::Scenario>,
    event: RetryableScenario<W>,
) -> Cucumber<W> {
    Cucumber::Feature(feat, match rule {
        Some(r) => Feature::Rule(r, Rule::Scenario(scenario, event)),
        None => Feature::Scenario(scenario, event),
    })
}

impl<W> Cucumber<W> {
    /// Event of a feature starting.
    pub fn feature_started(feat: Source<gherkin::Feature>) -> (e: Self)
        ensures
            e == Cucumber::<W>::Feature(feat, Feature::Started),
    {
        Cucumber::Feature(feat, Feature::Started)
    }

    /// Event of a rule starting.
    pub fn rule_started(feat: Source<gherkin::Feature>, rule: Source<gherkin::Rule>) -> (e: Self)
        ensures
            e == Cucumber::<W>::Feature(feat, Feature::Rule(rule, Rule::Started)),
    {
        Cucumber::Feature(feat, Feature::Rule(rule, Rule::Started))
    }

    /// Event of a feature finishing.
    pub fn feature_finished(feat: Source<gherkin::Feature>) -> (e: Self)
        ensures
            e == Cucumber::<W>::Feature(feat, Feature::Finished),
    {
        Cucumber::Feature(feat, Feature::Finished)
    }

    /// Event of a rule finishing.
    pub fn rule_finished(feat: Source<gherkin::Feature>, rule: Source<gherkin::Rule>) -> (e: Self)
        ensures
            e == Cucumber::<W>::Feature(feat, Feature::Rule(rule, Rule::Finished)),
    {
        Cucumber::Feature(feat, Feature::Rule(rule, Rule::Finished))
    }

    /// Event of a scenario: inside its rule when it has one, directly
    /// inside its feature otherwise.
    pub fn scenario(
        feat: Source<gherkin::Feature>,
        rule: Option<Source<gherkin::Rule>>,
        scenario: Source<gherkin::Scenario>,
        event: RetryableScenario<W>,
    ) -> (e: Self)
        ensures
            e == scenario_event(feat, rule, scenario, event),
    {
        Cucumber::Feature(
            feat,
            match rule {
                Some(r) => Feature::Rule(r, Rule::Scenario(scenario, event)),
                None => Feature::Scenario(scenario, event),
            },
        )
    }
}

} // verus!
