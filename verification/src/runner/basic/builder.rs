//! Configuration of the default runner, built one setting at a time.

use vstd::prelude::*;

use super::cli_and_types::{all_tags, collect_all_tags, Cli, ScenarioType};
use crate::gherkin::{Feature, Rule, Scenario};
use crate::step::collection::registered;
use crate::step::Collection;
use crate::tag::{contains_tag, copy_op, lemma_same_op_reflexive, same_op, TagOperation};
use crate::text::push_str;
use crate::time::Duration;

verus! {

/// The scenario, its rule or its feature is tagged `serial`.
pub open spec fn tagged_serial(feature: Feature, rule: Option<Rule>, scenario: Scenario) -> bool {
    all_tags(feature, rule, scenario).contains("serial"@)
}

/// Default choice of how a scenario runs: serially when it, its rule or its
/// feature is tagged `serial`, concurrently otherwise.
pub fn default_which_scenario(feature: &Feature, rule: Option<&Rule>, scenario: &Scenario) -> (t: ScenarioType)
    ensures
        t == if tagged_serial(*feature, match rule { Some(x) => Some(*x), None => None }, *scenario) {
            ScenarioType::Serial
        } else {
            ScenarioType::Concurrent
        },
{
    let tags = collect_all_tags(feature, rule, scenario);
    let mut serial = String::new();
    push_str(&mut serial, "serial");
    proof {
        reveal_strlit("serial");
        assert(serial@ =~= "serial"@);
    }
    if contains_tag(&tags, &serial) {
        ScenarioType::Serial
    } else {
        ScenarioType::Concurrent
    }
}

/// Configuration of the default runner: step functions of type `S`, the
/// choice `F` of how each scenario runs, the choice `R` of its retry
/// options, and the hooks `B` run before and `A` run after each scenario.
#[derive(Clone)]
pub struct Basic<S, F, R, B, A> {
    /// Most scenarios run at once; no limit when `None`.
    pub max_concurrent_scenarios: Option<usize>,
    /// Retries of a failed scenario, unless its tags say otherwise.
    pub retries: Option<usize>,
    /// Delay before a failed scenario is retried.
    pub retry_after: Option<Duration>,
    /// Which scenarios may be retried.
    pub retry_filter: Option<TagOperation>,
    /// The step functions.
    pub steps: Collection<S>,
    /// Decides how a scenario runs.
    pub which_scenario: F,
    /// Decides the retry options of a scenario.
    pub retry_options: R,
    /// Run before each scenario.
    pub before_hook: Option<B>,
    /// Run after each scenario.
    pub after_hook: Option<A>,
    /// Stop at the first failure.
    pub fail_fast: bool,
}

impl<S, F, R> Basic<S, F, R, (), ()> {
    /// A configuration with the given choices and the default settings: at
    /// most 64 scenarios at once, no retries, no filter, no step functions,
    /// no hooks, no fail-fast.
    pub fn new(which_scenario: F, retry_options: R) -> (b: Self)
        ensures
            b.max_concurrent_scenarios == Some(64usize),
            b.retries is None,
            b.retry_after is None,
            b.retry_filter is None,
            b.steps.given@.len() == 0,
            b.steps.when@.len() == 0,
            b.steps.then_steps@.len() == 0,
            b.which_scenario == which_scenario,
            b.retry_options == retry_options,
            b.before_hook is None,
            b.after_hook is None,
            !b.fail_fast,
    {
        Basic {
            max_concurrent_scenarios: Some(64),
            retries: None,
            retry_after: None,
            retry_filter: None,
            steps: Collection::new(),
            which_scenario,
            retry_options,
            before_hook: None,
            after_hook: None,
            fail_fast: false,
        }
    }
}

/// `b` has the settings of `a` but for what the named parameters give.
pub open spec fn same_settings<S, F, R, B, A>(a: Basic<S, F, R, B, A>, b: Basic<S, F, R, B, A>) -> bool {
    &&& a.max_concurrent_scenarios == b.max_concurrent_scenarios
    &&& a.retries == b.retries
    &&& a.retry_after == b.retry_after
    &&& a.retry_filter == b.retry_filter
    &&& a.fail_fast == b.fail_fast
}

impl<S, F, R, B, A> Basic<S, F, R, B, A> {
    /// Sets the most scenarios run at once (`None`: no limit).
    pub fn max_concurrent_scenarios(self, max: Option<usize>) -> (b: Self)
        ensures
            b == (Basic { max_concurrent_scenarios: max, ..self }),
    {
        let mut b = self;
        b.max_concurrent_scenarios = max;
        b
    }

    /// Sets the retries of a failed scenario.
    pub fn retries(self, retries: Option<usize>) -> (b: Self)
        ensures
            b == (Basic { retries, ..self }),
    {
        let mut b = self;
        b.retries = retries;
        b
    }

    /// Sets the delay before a failed scenario is retried.
    pub fn retry_after(self, after: Option<Duration>) -> (b: Self)
        ensures
            b == (Basic { retry_after: after, ..self }),
    {
        let mut b = self;
        b.retry_after = after;
        b
    }

    /// Sets which scenarios may be retried.
    pub fn retry_filter(self, tag_expression: Option<TagOperation>) -> (b: Self)
        ensures
            b == (Basic { retry_filter: tag_expression, ..self }),
    {
        let mut b = self;
        b.retry_filter = tag_expression;
        b
    }

    /// Stops the run at the first failure.
    pub fn fail_fast(self) -> (b: Self)
        ensures
            b == (Basic { fail_fast: true, ..self }),
    {
        let mut b = self;
        b.fail_fast = true;
        b
    }

    /// Replaces the choice of how a scenario runs.
    pub fn which_scenario<F2>(self, func: F2) -> (b: Basic<S, F2, R, B, A>)
        ensures
            b.which_scenario == func,
            b.max_concurrent_scenarios == self.max_concurrent_scenarios,
            b.retries == self.retries,
            b.retry_after == self.retry_after,
            b.retry_filter == self.retry_filter,
            b.steps == self.steps,
            b.retry_options == self.retry_options,
            b.before_hook == self.before_hook,
            b.after_hook == self.after_hook,
            b.fail_fast == self.fail_fast,
    {
        Basic {
            max_concurrent_scenarios: self.max_concurrent_scenarios,
            retries: self.retries,
            retry_after: self.retry_after,
            retry_filter: self.retry_filter,
            steps: self.steps,
            which_scenario: func,
            retry_options: self.retry_options,
            before_hook: self.before_hook,
            after_hook: self.after_hook,
            fail_fast: self.fail_fast,
        }
    }

    /// Replaces the choice of a scenario's retry options.
    pub fn retry_options<R2>(self, func: R2) -> (b: Basic<S, F, R2, B, A>)
        ensures
            b.retry_options == func,
            b.max_concurrent_scenarios == self.max_concurrent_scenarios,
            b.retries == self.retries,
            b.retry_after == self.retry_after,
            b.retry_filter == self.retry_filter,
            b.steps == self.steps,
            b.which_scenario == self.which_scenario,
            b.before_hook == self.before_hook,
            b.after_hook == self.after_hook,
            b.fail_fast == self.fail_fast,
    {
        Basic {
            max_concurrent_scenarios: self.max_concurrent_scenarios,
            retries: self.retries,
            retry_after: self.retry_after,
            retry_filter: self.retry_filter,
            steps: self.steps,
            which_scenario: self.which_scenario,
            retry_options: func,
            before_hook: self.before_hook,
            after_hook: self.after_hook,
            fail_fast: self.fail_fast,
        }
    }

    /// Sets the hook run before each scenario.
    pub fn before<B2>(self, func: B2) -> (b: Basic<S, F, R, B2, A>)
        ensures
            b.before_hook == Some(func),
            b.max_concurrent_scenarios == self.max_concurrent_scenarios,
            b.retries == self.retries,
            b.retry_after == self.retry_after,
            b.retry_filter == self.retry_filter,
            b.steps == self.steps,
            b.which_scenario == self.which_scenario,
            b.retry_options == self.retry_options,
            b.after_hook == self.after_hook,
            b.fail_fast == self.fail_fast,
    {
        Basic {
            max_concurrent_scenarios: self.max_concurrent_scenarios,
            retries: self.retries,
            retry_after: self.retry_after,
            retry_filter: self.retry_filter,
            steps: self.steps,
            which_scenario: self.which_scenario,
            retry_options: self.retry_options,
            before_hook: Some(func),
            after_hook: self.after_hook,
            fail_fast: self.fail_fast,
        }
    }

    /// Sets the hook run after each scenario.
    pub fn after<A2>(self, func: A2) -> (b: Basic<S, F, R, B, A2>)
        ensures
            b.after_hook == Some(func),
            b.max_concurrent_scenarios == self.max_concurrent_scenarios,
            b.retries == self.retries,
            b.retry_after == self.retry_after,
            b.retry_filter == self.retry_filter,
            b.steps == self.steps,
            b.which_scenario == self.which_scenario,
            b.retry_options == self.retry_options,
            b.before_hook == self.before_hook,
            b.fail_fast == self.fail_fast,
    {
        Basic {
            max_concurrent_scenarios: self.max_concurrent_scenarios,
            retries: self.retries,
            retry_after: self.retry_after,
            retry_filter: self.retry_filter,
            steps: self.steps,
            which_scenario: self.which_scenario,
            retry_options: self.retry_options,
            before_hook: self.before_hook,
            after_hook: Some(func),
            fail_fast: self.fail_fast,
        }
    }

    /// Replaces the step functions.
    pub fn steps(self, steps: Collection<S>) -> (b: Self)
        ensures
            b == (Basic { steps, ..self }),
    {
        let mut b = self;
        b.steps = steps;
        b
    }

    /// Settings a run uses: the CLI options, each missing one taken from
    /// this configuration (retries, retry delay, retry filter); fail-fast
    /// when either asks for it; and the concurrency limit of the CLI, or else
    /// of this configuration.
    pub fn settings_for_run(&self, cli: Cli) -> (r: (Cli, bool, Option<usize>))
        ensures
            r.0.concurrency == cli.concurrency,
            r.0.fail_fast == cli.fail_fast,
            r.0.retry == (if cli.retry is Some { cli.retry } else { self.retries }),
            r.0.retry_after == (if cli.retry_after is Some { cli.retry_after } else { self.retry_after }),
            match (cli.retry_tag_filter, r.0.retry_tag_filter) {
                (Some(a), Some(b)) => same_op(a, b),
                (None, Some(b)) => self.retry_filter matches Some(a) && same_op(a, b),
                (None, None) => self.retry_filter is None,
                (Some(_), None) => false,
            },
            r.1 == (cli.fail_fast || self.fail_fast),
            r.2 == (if cli.concurrency is Some { cli.concurrency } else { self.max_concurrent_scenarios }),
    {
        let mut cli = cli;
        if cli.retry.is_none() {
            cli.retry = self.retries;
        }
        if cli.retry_after.is_none() {
            cli.retry_after = self.retry_after;
        }
        if cli.retry_tag_filter.is_none() {
            cli.retry_tag_filter = match &self.retry_filter {
                Some(op) => Some(copy_op(op)),
                None => None,
            };
        } else {
            proof {
                lemma_same_op_reflexive(cli.retry_tag_filter.unwrap());
            }
        }
        let fail_fast = cli.fail_fast || self.fail_fast;
        let concurrency = match cli.concurrency {
            Some(c) => Some(c),
            None => self.max_concurrent_scenarios,
        };
        (cli, fail_fast, concurrency)
    }

    /// Adds a `Given` step function matching `regex`, with no location.
    pub fn given(self, regex: ::regex::Regex, step: S) -> (b: Self)
        ensures
            registered(self.steps.given@, b.steps.given@, None, regex, step),
            b.steps.when@ == self.steps.when@,
            b.steps.then_steps@ == self.steps.then_steps@,
            same_settings(self, b),
    {
        let mut b = self;
        let mut steps: Collection<S> = Collection::new();
        core::mem::swap(&mut steps, &mut b.steps);
        b.steps = steps.given(None, regex, step);
        b
    }

    /// Adds a `When` step function matching `regex`, with no location.
    pub fn when(self, regex: ::regex::Regex, step: S) -> (b: Self)
        ensures
            registered(self.steps.when@, b.steps.when@, None, regex, step),
            b.steps.given@ == self.steps.given@,
            b.steps.then_steps@ == self.steps.then_steps@,
            same_settings(self, b),
    {
        let mut b = self;
        let mut steps: Collection<S> = Collection::new();
        core::mem::swap(&mut steps, &mut b.steps);
        b.steps = steps.when(None, regex, step);
        b
    }

    /// Adds a `Then` step function matching `regex`, with no location.
    pub fn then_step(self, regex: ::regex::Regex, step: S) -> (b: Self)
        ensures
            registered(self.steps.then_steps@, b.steps.then_steps@, None, regex, step),
            b.steps.given@ == self.steps.given@,
            b.steps.when@ == self.steps.when@,
            same_settings(self, b),
    {
        let mut b = self;
        let mut steps: Collection<S> = Collection::new();
        core::mem::swap(&mut steps, &mut b.steps);
        b.steps = steps.then_step(None, regex, step);
        b
    }
}

} // verus!
