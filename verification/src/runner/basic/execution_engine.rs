//! Decisions of the default runner's main loop: how many scenarios may
//! start, when the loop sleeps or stops, and whether a finished scenario is
//! retried. The scenarios themselves run outside, which reports back here.

use vstd::prelude::*;

use super::cli_and_types::RetryOptions;
use crate::event::{Cucumber, ScenarioFinished};
use crate::feature::{count_scenarios, count_steps, scenario_count, step_count};
use crate::gherkin::Feature;
use super::supporting_structures::{finished_event_for, ExecutionFailure};
use crate::time::Duration;

verus! {

/// What the main loop does after asking the storage for scenarios.
#[derive(Clone, Copy, Debug, PartialEq, Eq)]
pub enum LoopAction {
    /// Nothing runs and nothing is left: the run is over.
    Stop,
    /// Nothing runs and nothing is ready: wait for the given time (if any)
    /// and ask again.
    Wait(Option<Duration>),
    /// Start the scenarios handed out and wait for one to finish.
    Run,
}

/// Bookkeeping of the main loop: how many scenarios run, how many more may
/// start, and whether starting new ones has stopped (fail fast).
#[derive(Clone, Copy, Debug)]
pub struct ExecutionState {
    max: Option<usize>,
    running: usize,
    stopped: bool,
}

impl ExecutionState {
    /// The limit of scenarios running at once, if any.
    pub closed spec fn limit(self) -> Option<usize> {
        self.max
    }

    /// Scenarios running now.
    pub closed spec fn running_count(self) -> nat {
        self.running as nat
    }

    /// Whether no new scenario may start any more.
    pub closed spec fn is_stopped(self) -> bool {
        self.stopped
    }

    /// How many more scenarios may start now (`None`: no limit).
    pub open spec fn room(self) -> Option<usize> {
        if self.is_stopped() {
            Some(0usize)
        } else {
            match self.limit() {
                Some(m) => Some((m - self.running_count()) as usize),
                None => None,
            }
        }
    }

    /// Never more scenarios run than the limit allows.
    #[verifier::type_invariant]
    closed spec fn wf(self) -> bool {
        self.max matches Some(m) ==> self.running <= m
    }

    /// Nothing runs yet; at most `max_concurrent_scenarios` may run at once.
    pub fn new(max_concurrent_scenarios: Option<usize>) -> (s: Self)
        ensures
            s.limit() == max_concurrent_scenarios,
            s.running_count() == 0,
            !s.is_stopped(),
    {
        ExecutionState { max: max_concurrent_scenarios, running: 0, stopped: false }
    }

    /// How many scenarios to ask the storage for: none once stopped,
    /// otherwise the room left under the limit.
    pub fn request(&self) -> (r: Option<usize>)
        ensures
            r == self.room(),
            self.limit() matches Some(m) ==> self.running_count() <= m,
    {
        proof { use_type_invariant(self); }
        if self.stopped {
            Some(0)
        } else {
            match self.max {
                Some(m) => Some(m - self.running),
                None => None,
            }
        }
    }

    /// What to do after asking the storage: run what was handed out; with
    /// nothing running or handed out, stop once the storage reports it is
    /// finished, and wait otherwise.
    pub fn after_get(&self, handed_out: usize, storage_finished: bool, sleep: Option<Duration>) -> (a: LoopAction)
        ensures
            self.running_count() == 0 && handed_out == 0 && storage_finished ==> a == LoopAction::Stop,
            self.running_count() == 0 && handed_out == 0 && !storage_finished ==> a == LoopAction::Wait(sleep),
            !(self.running_count() == 0 && handed_out == 0) ==> a == LoopAction::Run,
    {
        if self.running == 0 && handed_out == 0 {
            if storage_finished {
                LoopAction::Stop
            } else {
                LoopAction::Wait(sleep)
            }
        } else {
            LoopAction::Run
        }
    }

    /// Records that `n` scenarios started; there was room for them.
    pub fn started(&mut self, n: usize)
        requires
            old(self).room() matches Some(r) ==> n <= r,
            old(self).running_count() + n <= usize::MAX,
        ensures
            final(self).running_count() == old(self).running_count() + n,
            final(self).limit() == old(self).limit(),
            final(self).is_stopped() == old(self).is_stopped(),
    {
        proof { use_type_invariant(&*self); }
        self.running = self.running + n;
    }

    /// Records that a running scenario finished, which frees room for one.
    pub fn scenario_done(&mut self)
        requires
            old(self).running_count() > 0,
        ensures
            final(self).running_count() == old(self).running_count() - 1,
            final(self).limit() == old(self).limit(),
            final(self).is_stopped() == old(self).is_stopped(),
    {
        proof { use_type_invariant(&*self); }
        self.running = self.running - 1;
    }

    /// Records the report of a finished scenario: with `fail_fast`, a failure
    /// that will not be retried stops new scenarios from starting.
    pub fn scenario_reported(&mut self, fail_fast: bool, failed: bool, retried: bool)
        ensures
            final(self).is_stopped() == (old(self).is_stopped() || (fail_fast && failed && !retried)),
            final(self).running_count() == old(self).running_count(),
            final(self).limit() == old(self).limit(),
    {
        proof { use_type_invariant(&*self); }
        if fail_fast && failed && !retried {
            self.stopped = true;
        }
    }
}

/// Whether a scenario's outcome counts as a step failure.
pub fn is_step_failure(finished: &ScenarioFinished) -> (r: bool)
    ensures
        r == (*finished is StepFailed),
{
    match finished {
        ScenarioFinished::StepFailed(..) => true,
        _ => false,
    }
}

/// The next try of a retried run: one retry fewer left, one attempt more
/// made, the same delay.
pub open spec fn next_try_spec(o: RetryOptions) -> Option<RetryOptions> {
    if o.retries.left == 0 {
        None
    } else {
        Some(RetryOptions {
            retries: crate::event::Retries { current: (o.retries.current + 1) as usize, left: (o.retries.left - 1) as usize },
            after: o.after,
        })
    }
}

/// How a scenario run ended: whether it failed, and its next try if it is
/// to be retried. A run failed when it could not run all its steps (a hook
/// or a step failed, or a step was skipped on the way) or when a step failed
/// or the `After` hook failed; only a failed run with retries left is retried.
pub fn scenario_completion(
    completed: Option<&ScenarioFinished>,
    after_hook_failed: bool,
    retry_options: Option<RetryOptions>,
) -> (r: (bool, Option<RetryOptions>))
    requires
        retry_options matches Some(o) ==> (o.retries.left > 0 ==> o.retries.current < usize::MAX),
    ensures
        r.0 == match completed {
            None => true,
            Some(f) => (*f is StepFailed) || after_hook_failed,
        },
        r.1 == if r.0 {
            match retry_options { Some(o) => next_try_spec(o), None => None }
        } else {
            None
        },
{
    let is_failed = match completed {
        None => true,
        Some(f) => is_step_failure(f) || after_hook_failed,
    };
    let next = if is_failed {
        match retry_options {
            Some(o) => o.next_try(),
            None => None,
        }
    } else {
        None
    };
    (is_failed, next)
}

/// A run is retried only when it failed and had retries left, and its
/// next try has one retry fewer and one attempt more.
pub proof fn lemma_retry_only_after_failure(failed: bool, retry_options: Option<RetryOptions>)
    requires
        retry_options matches Some(o) ==> (o.retries.left > 0 ==> o.retries.current < usize::MAX),
    ensures
        ({
            let next = if failed { match retry_options { Some(o) => next_try_spec(o), None => None } } else { None };
            &&& next is Some ==> failed && retry_options is Some && retry_options.unwrap().retries.left > 0
            &&& next matches Some(n) ==> n.retries.left == retry_options.unwrap().retries.left - 1
                && n.retries.current == retry_options.unwrap().retries.current + 1
        }),
{
}

/// How a scenario run ended when its steps ran to completion (`None`) or
/// stopped at `failure`: whether it failed (a panicked hook or step, or a
/// failed `After` hook; a skipped step is no failure), and its next try if
/// it is to be retried.
pub fn scenario_run_outcome<W>(
    failure: Option<&ExecutionFailure<W>>,
    after_hook_failed: bool,
    retry_options: Option<RetryOptions>,
) -> (r: (bool, Option<RetryOptions>))
    requires
        retry_options matches Some(o) ==> (o.retries.left > 0 ==> o.retries.current < usize::MAX),
    ensures
        r.0 == ((failure matches Some(f) && !(*f is StepSkipped)) || after_hook_failed),
        r.1 == if r.0 {
            match retry_options { Some(o) => next_try_spec(o), None => None }
        } else {
            None
        },
{
    let scenario_failed = match failure {
        Some(f) => f.is_failure(),
        None => false,
    };
    let is_failed = scenario_failed || after_hook_failed;
    let next = if is_failed {
        match retry_options {
            Some(o) => o.next_try(),
            None => None,
        }
    } else {
        None
    };
    (is_failed, next)
}

/// What was parsed so far while features are handed to the storage: how
/// many features, rules, scenarios and steps, and how many parser errors.
#[derive(Clone, Copy, Debug, PartialEq, Eq, Structural)]
pub struct ParseTally {
    /// Parsed features.
    pub features: usize,
    /// Rules of the parsed features.
    pub rules: usize,
    /// Scenarios of the parsed features, those of their rules included.
    pub scenarios: usize,
    /// Steps of the parsed features (see [`step_count`]).
    pub steps: usize,
    /// Errors met while parsing.
    pub parser_errors: usize,
}

impl ParseTally {
    /// Nothing parsed yet.
    pub fn new() -> (t: Self)
        ensures
            t == (ParseTally { features: 0, rules: 0, scenarios: 0, steps: 0, parser_errors: 0 }),
    {
        ParseTally { features: 0, rules: 0, scenarios: 0, steps: 0, parser_errors: 0 }
    }

    /// Counts a parsed feature, its rules, scenarios and steps.
    pub fn record_feature(&mut self, feature: &Feature)
        requires
            old(self).features < usize::MAX,
            old(self).rules + feature.rules@.len() <= usize::MAX,
            old(self).scenarios + scenario_count(*feature) <= usize::MAX,
            old(self).steps + step_count(*feature) <= usize::MAX,
        ensures
            final(self).features == old(self).features + 1,
            final(self).rules == old(self).rules + feature.rules@.len(),
            final(self).scenarios == old(self).scenarios + scenario_count(*feature),
            final(self).steps == old(self).steps + step_count(*feature),
            final(self).parser_errors == old(self).parser_errors,
    {
        proof {
            crate::feature::lemma_scenario_count_nonnegative(*feature);
            crate::feature::lemma_step_count_nonnegative(*feature);
        }
        self.features = self.features + 1;
        self.rules = self.rules + feature.rules.len();
        self.scenarios = self.scenarios + count_scenarios(feature);
        self.steps = self.steps + count_steps(feature);
    }

    /// Counts a parser error; returns whether to stop taking features:
    /// when nobody listens for the error any more (`send_failed`), or on
    /// `fail_fast`.
    pub fn record_error(&mut self, send_failed: bool, fail_fast: bool) -> (stop: bool)
        requires
            old(self).parser_errors < usize::MAX,
        ensures
            final(self).parser_errors == old(self).parser_errors + 1,
            final(self).features == old(self).features,
            final(self).rules == old(self).rules,
            final(self).scenarios == old(self).scenarios,
            final(self).steps == old(self).steps,
            stop == (send_failed || fail_fast),
    {
        self.parser_errors = self.parser_errors + 1;
        send_failed || fail_fast
    }

    /// The event reporting that parsing finished, with these counts.
    pub fn parsing_finished<W>(&self) -> (e: Cucumber<W>)
        ensures
            e == (Cucumber::<W>::ParsingFinished {
                features: self.features,
                rules: self.rules,
                scenarios: self.scenarios,
                steps: self.steps,
                parser_errors: self.parser_errors,
            }),
    {
        Cucumber::ParsingFinished {
            features: self.features,
            rules: self.rules,
            scenarios: self.scenarios,
            steps: self.steps,
            parser_errors: self.parser_errors,
        }
    }
}

/// The events the executor sends itself about one scenario run; those of
/// its hooks and steps come from their own runners in between.
#[derive(Clone, Copy, Debug, PartialEq, Eq, Structural)]
pub enum RunEvent {
    /// The run started (its world was created).
    Started,
    /// The world could not be created: reported as a failed `Before` hook.
    WorldCreationFailed,
    /// The run finished.
    Finished,
}

/// Where a scenario run stands.
#[derive(Clone, Copy, Debug, PartialEq, Eq, Structural)]
pub enum RunPhase {
    /// Its world is being created.
    CreatingWorld,
    /// Its `Before` hook runs.
    BeforeHook,
    /// Its steps run.
    Steps,
    /// Its `After` hook runs.
    AfterHook,
    /// It is over.
    Done,
}

/// The executor's own events so far, in order, for a run in `phase`: none
/// before the world exists; `Started` while it runs; at the end `Started`
/// then `Finished`, or the world's failure then `Finished`.
pub open spec fn events_so_far(phase: RunPhase, world_failed: bool, events: Seq<RunEvent>) -> bool {
    match phase {
        RunPhase::CreatingWorld => events == Seq::<RunEvent>::empty(),
        RunPhase::Done => if world_failed {
            events == seq![RunEvent::WorldCreationFailed, RunEvent::Finished]
        } else {
            events == seq![RunEvent::Started, RunEvent::Finished]
        },
        _ => events == seq![RunEvent::Started],
    }
}

/// The course of one scenario run: create the world, run the `Before`
/// hook, the steps and the `After` hook, and say which events the executor
/// sends at each point. A run whose world or `Before` hook fails goes
/// straight to its end, without the `After` hook.
pub struct ScenarioLifecycle {
    phase: RunPhase,
    world_failed: bool,
    failed: bool,
    sent: Ghost<Seq<RunEvent>>,
}

impl ScenarioLifecycle {
    /// Where the run stands.
    pub closed spec fn phase_of(&self) -> RunPhase {
        self.phase
    }

    /// Whether the run has failed so far.
    pub closed spec fn has_failed(&self) -> bool {
        self.failed
    }

    /// Whether the world could not be created.
    pub closed spec fn world_failed(&self) -> bool {
        self.world_failed
    }

    /// The executor's own events sent so far, in order.
    pub closed spec fn sent(&self) -> Seq<RunEvent> {
        self.sent@
    }

    /// What holds of every run: its events so far fit its phase.
    pub closed spec fn wf(&self) -> bool {
        &&& events_so_far(self.phase, self.world_failed, self.sent@)
        &&& self.world_failed ==> self.failed && self.phase == RunPhase::Done
        &&& self.phase == RunPhase::CreatingWorld ==> !self.failed
    }

    /// A run about to create its world.
    pub fn new() -> (r: Self)
        ensures
            r.wf(),
            r.phase_of() == RunPhase::CreatingWorld,
            !r.has_failed(),
            r.sent() == Seq::<RunEvent>::empty(),
    {
        ScenarioLifecycle { phase: RunPhase::CreatingWorld, world_failed: false, failed: false, sent: Ghost(Seq::empty()) }
    }

    /// The world was created (`ok`) or not; returns the events to send.
    pub fn world_created(&mut self, ok: bool) -> (e: Vec<RunEvent>)
        requires
            old(self).wf(),
            old(self).phase_of() == RunPhase::CreatingWorld,
        ensures
            final(self).wf(),
            final(self).sent() == old(self).sent() + e@,
            ok ==> e@ == seq![RunEvent::Started] && final(self).phase_of() == RunPhase::BeforeHook
                && !final(self).has_failed(),
            !ok ==> e@ == seq![RunEvent::WorldCreationFailed, RunEvent::Finished]
                && final(self).phase_of() == RunPhase::Done && final(self).has_failed(),
    {
        let mut e: Vec<RunEvent> = Vec::new();
        if ok {
            e.push(RunEvent::Started);
            assert(e@ =~= seq![RunEvent::Started]);
            self.phase = RunPhase::BeforeHook;
        } else {
            e.push(RunEvent::WorldCreationFailed);
            e.push(RunEvent::Finished);
            assert(e@ =~= seq![RunEvent::WorldCreationFailed, RunEvent::Finished]);
            self.phase = RunPhase::Done;
            self.world_failed = true;
            self.failed = true;
        }
        proof {
            self.sent = Ghost(self.sent@ + e@);
            assert(self.sent@ =~= old(self).sent@ + e@);
        }
        e
    }

    /// The `Before` hook ran, and `failed` tells whether it failed; returns
    /// the events to send.
    pub fn before_hook_done(&mut self, failed: bool) -> (e: Vec<RunEvent>)
        requires
            old(self).wf(),
            old(self).phase_of() == RunPhase::BeforeHook,
        ensures
            final(self).wf(),
            final(self).sent() == old(self).sent() + e@,
            failed ==> e@ == seq![RunEvent::Finished] && final(self).phase_of() == RunPhase::Done
                && final(self).has_failed(),
            !failed ==> e@ == Seq::<RunEvent>::empty() && final(self).phase_of() == RunPhase::Steps
                && final(self).has_failed() == old(self).has_failed(),
    {
        let mut e: Vec<RunEvent> = Vec::new();
        if failed {
            e.push(RunEvent::Finished);
            assert(e@ =~= seq![RunEvent::Finished]);
            self.phase = RunPhase::Done;
            self.failed = true;
        } else {
            assert(e@ =~= Seq::<RunEvent>::empty());
            self.phase = RunPhase::Steps;
        }
        proof {
            self.sent = Ghost(self.sent@ + e@);
            assert(self.sent@ =~= old(self).sent@ + e@);
            if failed {
                assert(self.sent@ =~= seq![RunEvent::Started, RunEvent::Finished]);
            }
        }
        e
    }

    /// The steps ran and ended as `finished`; the `After` hook runs next.
    /// A failed step fails the run, a skipped one does not.
    pub fn steps_done(&mut self, finished: &ScenarioFinished)
        requires
            old(self).wf(),
            old(self).phase_of() == RunPhase::Steps,
        ensures
            final(self).wf(),
            final(self).sent() == old(self).sent(),
            final(self).phase_of() == RunPhase::AfterHook,
            final(self).has_failed() == (old(self).has_failed() || *finished is StepFailed),
    {
        if is_step_failure(finished) {
            self.failed = true;
        }
        self.phase = RunPhase::AfterHook;
    }

    /// The `After` hook ran, and `failed` tells whether it failed; returns
    /// the events to send.
    pub fn after_hook_done(&mut self, failed: bool) -> (e: Vec<RunEvent>)
        requires
            old(self).wf(),
            old(self).phase_of() == RunPhase::AfterHook,
        ensures
            final(self).wf(),
            final(self).sent() == old(self).sent() + e@,
            e@ == seq![RunEvent::Finished],
            final(self).phase_of() == RunPhase::Done,
            final(self).has_failed() == (old(self).has_failed() || failed),
    {
        let mut e: Vec<RunEvent> = Vec::new();
        e.push(RunEvent::Finished);
        assert(e@ =~= seq![RunEvent::Finished]);
        self.phase = RunPhase::Done;
        if failed {
            self.failed = true;
        }
        proof {
            self.sent = Ghost(self.sent@ + e@);
            assert(self.sent@ =~= old(self).sent@ + e@);
            assert(self.sent@ =~= seq![RunEvent::Started, RunEvent::Finished]);
        }
        e
    }

    /// Whether the run failed, and its next try if it is to be retried.
    pub fn outcome(&self, retry_options: Option<RetryOptions>) -> (r: (bool, Option<RetryOptions>))
        requires
            self.phase_of() == RunPhase::Done,
            retry_options matches Some(o) ==> (o.retries.left > 0 ==> o.retries.current < usize::MAX),
        ensures
            r.0 == self.has_failed(),
            r.1 == if r.0 {
                match retry_options { Some(o) => next_try_spec(o), None => None }
            } else {
                None
            },
    {
        let next = if self.failed {
            match retry_options {
                Some(o) => o.next_try(),
                None => None,
            }
        } else {
            None
        };
        (self.failed, next)
    }
}

/// A finished run has sent `Finished` exactly once, as its last event, and
/// `Started` exactly when its world was created.
pub proof fn lemma_finished_once_and_last(run: ScenarioLifecycle)
    requires
        run.wf(),
        run.phase_of() == RunPhase::Done,
    ensures
        run.sent().len() == 2,
        run.sent().last() == RunEvent::Finished,
        run.sent()[0] != RunEvent::Finished,
        (run.sent()[0] == RunEvent::Started) == !run.world_failed(),
        run.world_failed() ==> run.has_failed(),
{
}

/// The event explaining why a scenario run finished: its steps passed, or
/// the failure that stopped it.
pub fn finished_event_of<W>(failure: Option<&ExecutionFailure<W>>) -> (e: ScenarioFinished)
    ensures
        failure is None ==> e matches ScenarioFinished::StepPassed,
        failure matches Some(f) ==> finished_event_for(*f, e),
{
    match failure {
        None => ScenarioFinished::StepPassed,
        Some(f) => f.get_scenario_finished_event(),
    }
}

} // verus!
