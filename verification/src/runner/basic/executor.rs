//! Decisions of running the steps of one scenario: the feature's background
//! steps, then the rule's, then the scenario's own; once a step fails the
//! rest are skipped. The steps themselves run outside, which reports each
//! result back here.

use vstd::prelude::*;

use std::sync::Arc;

use super::supporting_structures::{AfterHookEventsMeta, ExecutionFailure};
use crate::event::{
    scenario_event, Cucumber, Hook, HookType, Info, Metadata, Retries, RetryableScenario, Scenario,
    Source, Step, StepError,
};
use crate::gherkin;
use crate::step::collection::{found, hit_indices};
use crate::step::{Collection, Context, Location};

verus! {

/// Result of one step, as reported back.
#[derive(Clone, Copy, Debug, PartialEq, Eq, Structural)]
pub enum StepResult {
    /// The step passed.
    Passed,
    /// The step was skipped (it asked to be, or matched no step function).
    Skipped,
    /// The step failed.
    Failed,
}

/// How the steps of a scenario ended.
#[derive(Clone, Copy, Debug, PartialEq, Eq, Structural)]
pub enum StepsOutcome {
    /// Every step passed.
    Passed,
    /// No step failed, but one was skipped.
    Skipped,
    /// A step failed.
    Failed,
}

/// What to do with the next step.
#[derive(Clone, Copy, Debug, PartialEq, Eq, Structural)]
pub enum StepAction {
    /// Run the step at `index` of all steps, a background step or not.
    Run { background: bool, index: usize },
    /// Report the step at `index` as skipped without running it: an earlier
    /// step failed.
    Skip { background: bool, index: usize },
    /// Every step has been dealt with.
    Done,
}

/// Outcome of the steps whose results are `rs`: failed if one failed, else
/// skipped if one was skipped, else passed.
pub open spec fn steps_outcome(rs: Seq<StepResult>) -> StepsOutcome {
    if exists|i: int| 0 <= i < rs.len() && rs[i] == StepResult::Failed {
        StepsOutcome::Failed
    } else if exists|i: int| 0 <= i < rs.len() && rs[i] == StepResult::Skipped {
        StepsOutcome::Skipped
    } else {
        StepsOutcome::Passed
    }
}

/// Progress through the steps of a scenario.
pub struct StepsRun {
    background: usize,
    total: usize,
    position: usize,
    failed: bool,
    skipped: usize,
    results: Ghost<Seq<StepResult>>,
}

impl StepsRun {
    /// Results recorded so far, one per step, in order (a step skipped
    /// after a failure counts as skipped).
    pub closed spec fn results(&self) -> Seq<StepResult> {
        self.results@
    }

    /// Number of background steps (of the feature and of the rule).
    pub closed spec fn background_len(&self) -> nat {
        self.background as nat
    }

    /// Number of steps, background ones included.
    pub closed spec fn total(&self) -> nat {
        self.total as nat
    }

    /// Whether a step has failed.
    pub closed spec fn has_failed(&self) -> bool {
        self.failed
    }

    #[verifier::type_invariant]
    closed spec fn wf(&self) -> bool {
        &&& self.background <= self.total
        &&& self.position == self.results@.len()
        &&& self.position <= self.total
        &&& self.skipped <= self.position
        &&& self.failed == exists|i: int| 0 <= i < self.results@.len() && self.results@[i] == StepResult::Failed
        &&& (self.skipped > 0) == exists|i: int| 0 <= i < self.results@.len() && self.results@[i] == StepResult::Skipped
    }

    /// Steps of a scenario with `feature_background` and `rule_background`
    /// background steps before its own `steps`.
    pub fn new(feature_background: usize, rule_background: usize, steps: usize) -> (r: Self)
        requires
            feature_background + rule_background + steps <= usize::MAX,
        ensures
            r.background_len() == feature_background + rule_background,
            r.total() == feature_background + rule_background + steps,
            r.results().len() == 0,
            !r.has_failed(),
    {
        StepsRun {
            background: feature_background + rule_background,
            total: feature_background + rule_background + steps,
            position: 0,
            failed: false,
            skipped: 0,
            results: Ghost(Seq::empty()),
        }
    }

    /// The next step to deal with: run it, or skip it once a step has failed.
    pub fn next_action(&self) -> (a: StepAction)
        ensures
            self.results().len() == self.total() ==> a == StepAction::Done,
            self.results().len() < self.total() && !self.has_failed() ==> a == (StepAction::Run {
                background: self.results().len() < self.background_len(),
                index: self.results().len() as usize,
            }),
            self.results().len() < self.total() && self.has_failed() ==> a == (StepAction::Skip {
                background: self.results().len() < self.background_len(),
                index: self.results().len() as usize,
            }),
    {
        proof { use_type_invariant(self); }
        if self.position == self.total {
            StepAction::Done
        } else if self.failed {
            StepAction::Skip { background: self.position < self.background, index: self.position }
        } else {
            StepAction::Run { background: self.position < self.background, index: self.position }
        }
    }

    /// Records the result of the step [`StepsRun::next_action`] named; a
    /// step skipped after a failure is recorded as skipped.
    pub fn record(&mut self, result: StepResult)
        requires
            old(self).results().len() < old(self).total(),
            old(self).has_failed() ==> result == StepResult::Skipped,
        ensures
            final(self).results() == old(self).results().push(result),
            final(self).total() == old(self).total(),
            final(self).background_len() == old(self).background_len(),
            final(self).has_failed() == (old(self).has_failed() || result == StepResult::Failed),
    {
        proof { use_type_invariant(&*self); }
        let ghost old_results = self.results@;
        let skipped = match result {
            StepResult::Skipped => self.skipped + 1,
            _ => self.skipped,
        };
        let failed = match result {
            StepResult::Failed => true,
            _ => self.failed,
        };
        proof {
            let rs = old_results.push(result);
            assert(rs[rs.len() - 1] == result);
            if exists|i: int| 0 <= i < old_results.len() && old_results[i] == StepResult::Failed {
                let i = choose|i: int| 0 <= i < old_results.len() && old_results[i] == StepResult::Failed;
                assert(rs[i] == StepResult::Failed);
            }
            if exists|i: int| 0 <= i < old_results.len() && old_results[i] == StepResult::Skipped {
                let i = choose|i: int| 0 <= i < old_results.len() && old_results[i] == StepResult::Skipped;
                assert(rs[i] == StepResult::Skipped);
            }
            if exists|i: int| 0 <= i < rs.len() && rs[i] == StepResult::Failed {
                let i = choose|i: int| 0 <= i < rs.len() && rs[i] == StepResult::Failed;
                if i < old_results.len() {
                    assert(old_results[i] == StepResult::Failed);
                }
            }
            if exists|i: int| 0 <= i < rs.len() && rs[i] == StepResult::Skipped {
                let i = choose|i: int| 0 <= i < rs.len() && rs[i] == StepResult::Skipped;
                if i < old_results.len() {
                    assert(old_results[i] == StepResult::Skipped);
                }
            }
        }
        *self = StepsRun {
            background: self.background,
            total: self.total,
            position: self.position + 1,
            failed,
            skipped,
            results: Ghost(old_results.push(result)),
        };
    }

    /// How the steps ended: failed if one failed, else skipped if one was
    /// skipped, else passed.
    pub fn outcome(&self) -> (o: StepsOutcome)
        ensures
            o == steps_outcome(self.results()),
    {
        proof { use_type_invariant(self); }
        if self.failed {
            StepsOutcome::Failed
        } else if self.skipped > 0 {
            StepsOutcome::Skipped
        } else {
            StepsOutcome::Passed
        }
    }
}

/// Once a step fails no further step runs: each later step is skipped,
/// and the scenario's steps end as failed.
pub proof fn lemma_failure_skips_the_rest(rs: Seq<StepResult>, k: int)
    requires
        0 <= k < rs.len(),
        rs[k] == StepResult::Failed,
    ensures
        steps_outcome(rs) == StepsOutcome::Failed,
{
}

/// The steps end as passed exactly when every step passed.
pub proof fn lemma_passed_iff_all_passed(rs: Seq<StepResult>)
    ensures
        steps_outcome(rs) == StepsOutcome::Passed <==> forall|i: int| 0 <= i < rs.len() ==> rs[i] == StepResult::Passed,
{
    if steps_outcome(rs) == StepsOutcome::Passed {
        assert forall|i: int| 0 <= i < rs.len() implies rs[i] == StepResult::Passed by {
            if rs[i] == StepResult::Failed || rs[i] == StepResult::Skipped {}
        }
    }
}

/// A step function ready to be called: the function, the capture locations
/// of its pattern, its location and the context it runs in.
pub type Prepared<'a, S> = (&'a S, ::regex::CaptureLocations, Option<Location>, Context);

/// Looks up the function of a step: ready to be called when the step matches
/// exactly one pattern of its kind, otherwise the event of the step failing
/// because it matches none (`NotFound`) or several (`AmbiguousMatch`).
pub fn prepare_step<'a, S, W>(collection: &'a Collection<S>, step: &gherkin::Step) -> (r: Result<Prepared<'a, S>, Step<W>>)
    ensures
        ({
            let entries = collection.steps_of(step.ty);
            let hits = hit_indices(entries, step.value@);
            &&& hits.len() == 0 ==> r == Err::<Prepared<'a, S>, Step<W>>(
                Step::Failed { captures: None, location: None, world: None, error: StepError::NotFound },
            )
            &&& hits.len() == 1 ==> (r matches Ok(t) && found(entries, *step, Ok(Some(t))))
            &&& hits.len() > 1 ==> (r matches Err(Step::Failed { captures: None, location: None, world: None, error: StepError::AmbiguousMatch(e) })
                && found::<S>(entries, *step, Err(e)))
        }),
{
    match collection.find(step) {
        Ok(Some(t)) => Ok(t),
        Ok(None) => Err(Step::Failed { captures: None, location: None, world: None, error: StepError::NotFound }),
        Err(e) => Err(Step::Failed { captures: None, location: None, world: None, error: StepError::AmbiguousMatch(e) }),
    }
}

/// The event of a step whose function ran: passed, or failed with the
/// message of its panic.
pub fn ran_step_event<W>(outcome: Result<(), Info>, captures: ::regex::CaptureLocations, location: Option<Location>) -> (e: Step<W>)
    ensures
        e == match outcome {
            Ok(_) => Step::<W>::Passed { captures, location },
            Err(info) => Step::<W>::Failed { captures: Some(captures), location, world: None, error: StepError::Panic(info) },
        },
{
    match outcome {
        Ok(()) => Step::Passed { captures, location },
        Err(info) => Step::Failed { captures: Some(captures), location, world: None, error: StepError::Panic(info) },
    }
}

/// The event reporting a failure, with the metadata it is sent with: none
/// for a skipped step, nor for a failed `Before` hook, whose event was sent
/// when it failed.
pub fn failure_event<W>(
    feature: Source<gherkin::Feature>,
    rule: Option<Source<gherkin::Rule>>,
    scenario: Source<gherkin::Scenario>,
    world: Option<Arc<W>>,
    err: ExecutionFailure<W>,
    retries: Option<Retries>,
) -> (r: Option<(Cucumber<W>, Metadata)>)
    ensures
        match err {
            ExecutionFailure::BeforeHookPanicked { panic_info, meta, .. } => r == Some((
                scenario_event(feature, rule, scenario, RetryableScenario {
                    event: Scenario::Hook(HookType::Before, Hook::Failed(world, panic_info)),
                    retries,
                }),
                meta,
            )),
            ExecutionFailure::StepPanicked { step, captures, loc, err, meta, is_background, .. } => {
                let failed = Step::Failed { captures, location: loc, world, error: err };
                r == Some((
                    scenario_event(feature, rule, scenario, RetryableScenario {
                        event: if is_background { Scenario::Background(step, failed) } else { Scenario::Step(step, failed) },
                        retries,
                    }),
                    meta,
                ))
            },
            ExecutionFailure::StepSkipped(_) => r is None,
            ExecutionFailure::Before => r is None,
        },
{
    match err {
        ExecutionFailure::StepSkipped(_) => None,
        ExecutionFailure::Before => None,
        ExecutionFailure::BeforeHookPanicked { panic_info, meta, .. } => Some((
            Cucumber::scenario(
                feature,
                rule,
                scenario,
                Scenario::hook_failed(HookType::Before, world, panic_info).with_retries(retries),
            ),
            meta,
        )),
        ExecutionFailure::StepPanicked { step, captures, loc, err, meta, is_background, .. } => {
            let ev = if is_background {
                Scenario::background_step_failed(step, captures, loc, world, err)
            } else {
                Scenario::step_failed(step, captures, loc, world, err)
            };
            Some((Cucumber::scenario(feature, rule, scenario, ev.with_retries(retries)), meta))
        },
    }
}

/// The events of an `After` hook, each with the metadata it is sent with:
/// none when no hook ran; otherwise its start, then its failure (with the
/// message of its panic) or its success.
pub fn after_hook_events<W>(
    feature: Source<gherkin::Feature>,
    rule: Option<Source<gherkin::Rule>>,
    scenario: Source<gherkin::Scenario>,
    world: Option<Arc<W>>,
    meta: Option<AfterHookEventsMeta>,
    err: Option<Info>,
    retries: Option<Retries>,
) -> (r: Vec<(Cucumber<W>, Metadata)>)
    ensures
        match meta {
            None => r@.len() == 0,
            Some(m) => r@ == seq![
                (
                    scenario_event(feature, rule, scenario, RetryableScenario {
                        event: Scenario::Hook(HookType::After, Hook::Started),
                        retries,
                    }),
                    m.started,
                ),
                (
                    scenario_event(feature, rule, scenario, RetryableScenario {
                        event: Scenario::Hook(HookType::After, match err {
                            Some(e) => Hook::Failed(world, e),
                            None => Hook::Passed,
                        }),
                        retries,
                    }),
                    m.finished,
                ),
            ],
        },
{
    let mut out: Vec<(Cucumber<W>, Metadata)> = Vec::new();
    match meta {
        None => {},
        Some(m) => {
            let started = Cucumber::scenario(
                feature.clone(),
                rule.clone(),
                scenario.clone(),
                Scenario::hook_started(HookType::After).with_retries(retries),
            );
            out.push((started, m.started));
            let ev = match err {
                Some(e) => Cucumber::scenario(
                    feature,
                    rule,
                    scenario,
                    Scenario::hook_failed(HookType::After, world, e).with_retries(retries),
                ),
                None => Cucumber::scenario(
                    feature,
                    rule,
                    scenario,
                    Scenario::hook_passed(HookType::After).with_retries(retries),
                ),
            };
            out.push((ev, m.finished));
        },
    }
    out
}

/// The event of a step of a scenario, a background step when `background`:
/// its start, its skipping, or its outcome, with the scenario's retries.
pub fn step_event<W>(
    feature: Source<gherkin::Feature>,
    rule: Option<Source<gherkin::Rule>>,
    scenario: Source<gherkin::Scenario>,
    step: Source<gherkin::Step>,
    background: bool,
    event: Step<W>,
    retries: Option<Retries>,
) -> (e: Cucumber<W>)
    ensures
        e == scenario_event(feature, rule, scenario, RetryableScenario {
            event: if background { Scenario::Background(step, event) } else { Scenario::Step(step, event) },
            retries,
        }),
{
    let ev = if background { Scenario::Background(step, event) } else { Scenario::Step(step, event) };
    Cucumber::scenario(feature, rule, scenario, ev.with_retries(retries))
}

} // verus!
