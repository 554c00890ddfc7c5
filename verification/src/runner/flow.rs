//! Decisions of running one scenario and one rule: which step runs next,
//! which events a step's outcome produces, and how a rule's outcome follows
//! from the events of its scenarios. The steps themselves run outside, and
//! their outcomes are handed back here.

use vstd::prelude::*;

use crate::examples::{substitute, ExampleValues};
use crate::runner::stats::{FailureKind, RuleEvent, ScenarioEvent, StepEvent};
use crate::text::{push_str, str_eq};

verus! {

/// Outcome of running one step function.
#[derive(Clone, Copy, Debug, PartialEq, Eq, Structural)]
pub enum TestOutcome {
    /// The step succeeded.
    Success,
    /// The step failed.
    Failure(FailureKind),
    /// The step asked to be skipped.
    Skipped,
    /// No step function matches the step.
    Unimplemented,
}

/// Panic message with which a step function asks to be skipped.
pub const TEST_SKIPPED: &'static str = "Cucumber: test skipped";

/// How a call of a step function ended.
#[derive(Clone, Debug)]
pub enum StepCall {
    /// The step function returned.
    Returned,
    /// The step function ran out of time.
    TimedOut,
    /// The step function panicked with this message.
    Panicked(String),
}

/// The outcome of a step whose function call ended as `call`: a panic with
/// [`TEST_SKIPPED`] as its message skips the step.
pub open spec fn step_outcome_spec(call: StepCall) -> TestOutcome {
    match call {
        StepCall::Returned => TestOutcome::Success,
        StepCall::TimedOut => TestOutcome::Failure(FailureKind::TimedOut),
        StepCall::Panicked(p) => if p@ == TEST_SKIPPED@ {
            TestOutcome::Skipped
        } else {
            TestOutcome::Failure(FailureKind::Panic)
        },
    }
}

/// The outcome of a step whose function call ended as `call`.
pub fn step_outcome(call: &StepCall) -> (o: TestOutcome)
    ensures
        o == step_outcome_spec(*call),
{
    match call {
        StepCall::Returned => TestOutcome::Success,
        StepCall::TimedOut => TestOutcome::Failure(FailureKind::TimedOut),
        StepCall::Panicked(p) => if str_eq(p.as_str(), TEST_SKIPPED) {
            TestOutcome::Skipped
        } else {
            TestOutcome::Failure(FailureKind::Panic)
        },
    }
}

/// What the runner of a scenario does next.
#[derive(Clone, Copy, Debug, PartialEq, Eq, Structural)]
pub enum ScenarioAction {
    /// Run the step at `index`, of the background or of the scenario.
    RunStep { background: bool, index: usize },
    /// Emit [`ScenarioEvent::Passed`]: every step succeeded.
    Pass,
    /// Nothing is left to do.
    Done,
}

/// The step event an outcome produces.
pub open spec fn outcome_step_event(o: TestOutcome) -> StepEvent {
    match o {
        TestOutcome::Success => StepEvent::Passed,
        TestOutcome::Failure(k) => StepEvent::Failed(k),
        TestOutcome::Skipped => StepEvent::Skipped,
        TestOutcome::Unimplemented => StepEvent::Unimplemented,
    }
}

/// The scenario event that ends the scenario after an outcome, if it does.
pub open spec fn outcome_scenario_end(o: TestOutcome) -> Option<ScenarioEvent> {
    match o {
        TestOutcome::Success => None,
        TestOutcome::Failure(k) => Some(ScenarioEvent::Failed(k)),
        TestOutcome::Skipped | TestOutcome::Unimplemented => Some(ScenarioEvent::Skipped),
    }
}

/// Wraps a step event as a background or scenario step event.
pub open spec fn wrap_step(background: bool, e: StepEvent) -> ScenarioEvent {
    if background { ScenarioEvent::Background(e) } else { ScenarioEvent::Step(e) }
}

/// Progress of one scenario: background steps run first, then the
/// scenario's own; the first step that does not succeed ends it.
#[derive(Clone, Copy, Debug)]
pub struct ScenarioRun {
    background_steps: usize,
    steps: usize,
    position: usize,
    ended: bool,
}

impl ScenarioRun {
    /// Number of background steps.
    pub closed spec fn background_len(self) -> nat {
        self.background_steps as nat
    }

    /// Number of background and scenario steps together.
    pub closed spec fn total(self) -> nat {
        (self.background_steps + self.steps) as nat
    }

    /// Number of steps that succeeded so far.
    pub closed spec fn succeeded(self) -> nat {
        self.position as nat
    }

    /// Whether the scenario has ended (passed, failed or been skipped).
    pub closed spec fn ended(self) -> bool {
        self.ended
    }

    /// Successes never outnumber the steps.
    #[verifier::type_invariant]
    closed spec fn wf(self) -> bool {
        &&& self.background_steps + self.steps <= usize::MAX
        &&& self.position <= self.background_steps + self.steps
    }

    /// A scenario about to run its first step.
    pub fn new(background_steps: usize, steps: usize) -> (r: Self)
        requires
            background_steps + steps <= usize::MAX,
        ensures
            r.background_len() == background_steps,
            r.total() == background_steps + steps,
            r.succeeded() == 0,
            !r.ended(),
    {
        ScenarioRun { background_steps, steps, position: 0, ended: false }
    }

    /// What to do next: run the next step, report that all steps passed, or
    /// nothing once the scenario has ended.
    pub fn next_action(&self) -> (a: ScenarioAction)
        ensures
            self.ended() ==> a == ScenarioAction::Done,
            !self.ended() && self.succeeded() == self.total() ==> a == ScenarioAction::Pass,
            !self.ended() && self.succeeded() < self.background_len() ==> a == (ScenarioAction::RunStep {
                background: true,
                index: self.succeeded() as usize,
            }),
            !self.ended() && self.background_len() <= self.succeeded() < self.total() ==> a
                == (ScenarioAction::RunStep {
                background: false,
                index: (self.succeeded() - self.background_len()) as usize,
            }),
    {
        proof { use_type_invariant(self); }
        if self.ended {
            ScenarioAction::Done
        } else if self.position == self.background_steps + self.steps {
            ScenarioAction::Pass
        } else if self.position < self.background_steps {
            ScenarioAction::RunStep { background: true, index: self.position }
        } else {
            ScenarioAction::RunStep { background: false, index: self.position - self.background_steps }
        }
    }

    /// Records that all steps passed; the scenario ends with
    /// [`ScenarioEvent::Passed`].
    pub fn pass(&mut self) -> (e: ScenarioEvent)
        requires
            !old(self).ended(),
            old(self).succeeded() == old(self).total(),
        ensures
            e == ScenarioEvent::Passed,
            final(self).ended(),
            final(self).succeeded() == old(self).succeeded(),
            final(self).total() == old(self).total(),
            final(self).background_len() == old(self).background_len(),
    {
        self.ended = true;
        ScenarioEvent::Passed
    }

    /// Records the outcome of the step that [`ScenarioRun::next_action`]
    /// asked for, returning the step's event and, when the outcome ends the
    /// scenario, the scenario's final event.
    pub fn record(&mut self, outcome: TestOutcome) -> (r: (ScenarioEvent, Option<ScenarioEvent>))
        requires
            !old(self).ended(),
            old(self).succeeded() < old(self).total(),
        ensures
            r.0 == wrap_step(old(self).succeeded() < old(self).background_len(), outcome_step_event(outcome)),
            r.1 == outcome_scenario_end(outcome),
            final(self).total() == old(self).total(),
            final(self).background_len() == old(self).background_len(),
            outcome == TestOutcome::Success ==> final(self).succeeded() == old(self).succeeded() + 1
                && !final(self).ended(),
            outcome != TestOutcome::Success ==> final(self).succeeded() == old(self).succeeded()
                && final(self).ended(),
    {
        proof { use_type_invariant(&*self); }
        let background = self.position < self.background_steps;
        let step_event = match outcome {
            TestOutcome::Success => StepEvent::Passed,
            TestOutcome::Failure(k) => StepEvent::Failed(k),
            TestOutcome::Skipped => StepEvent::Skipped,
            TestOutcome::Unimplemented => StepEvent::Unimplemented,
        };
        let wrapped = if background {
            ScenarioEvent::Background(step_event)
        } else {
            ScenarioEvent::Step(step_event)
        };
        match outcome {
            TestOutcome::Success => {
                self.position = self.position + 1;
                (wrapped, None)
            },
            TestOutcome::Failure(k) => {
                self.ended = true;
                (wrapped, Some(ScenarioEvent::Failed(k)))
            },
            _ => {
                self.ended = true;
                (wrapped, Some(ScenarioEvent::Skipped))
            },
        }
    }
}

/// Text of a scenario step run with example values: placeholders replaced
/// by the values, unless there are none.
pub fn scenario_step_text(example: &ExampleValues, value: &String) -> (r: String)
    ensures
        example.keys().len() == 0 ==> r@ == value@,
        example.keys().len() > 0 ==> r@ == substitute(value@, example.keys(), example.values(), example.keys().len()),
{
    if example.is_empty() {
        let mut r = String::new();
        push_str(&mut r, value.as_str());
        assert(r@ =~= value@);
        r
    } else {
        example.insert_values(value)
    }
}

/// A rule's outcome so far, after one more event of one of its scenarios:
/// a failure always wins, a pass counts only when nothing came before, and
/// a skip replaces an earlier pass.
pub open spec fn rule_step(acc: Option<RuleEvent>, e: ScenarioEvent) -> Option<RuleEvent> {
    match e {
        ScenarioEvent::Failed(k) => Some(RuleEvent::Failed(k)),
        ScenarioEvent::Passed => if acc is None { Some(RuleEvent::Passed) } else { acc },
        ScenarioEvent::Skipped => if acc == Some(RuleEvent::Passed) { Some(RuleEvent::Skipped) } else { acc },
        _ => acc,
    }
}

/// A rule's outcome so far, after the events `es` of its scenarios.
pub open spec fn rule_fold(es: Seq<ScenarioEvent>) -> Option<RuleEvent>
    decreases es.len(),
{
    if es.len() == 0 {
        None
    } else {
        rule_step(rule_fold(es.drop_last()), es.last())
    }
}

/// A rule's final event: its outcome so far, or skipped when there is none.
pub open spec fn rule_result(es: Seq<ScenarioEvent>) -> RuleEvent {
    match rule_fold(es) {
        Some(r) => r,
        None => RuleEvent::Skipped,
    }
}

/// Folds one more scenario event into a rule's outcome.
pub fn update_rule_outcome(acc: Option<RuleEvent>, e: &ScenarioEvent) -> (r: Option<RuleEvent>)
    ensures
        r == rule_step(acc, *e),
{
    match e {
        ScenarioEvent::Failed(k) => Some(RuleEvent::Failed(*k)),
        ScenarioEvent::Passed => if acc.is_none() { Some(RuleEvent::Passed) } else { acc },
        ScenarioEvent::Skipped => {
            if acc == Some(RuleEvent::Passed) {
                Some(RuleEvent::Skipped)
            } else {
                acc
            }
        },
        _ => acc,
    }
}

/// The final event of a rule whose scenarios produced `events`.
pub fn rule_outcome(events: &Vec<ScenarioEvent>) -> (r: RuleEvent)
    ensures
        r == rule_result(events@),
{
    let mut acc: Option<RuleEvent> = None;
    let mut i: usize = 0;
    while i < events.len()
        invariant
            i <= events@.len(),
            acc == rule_fold(events@.take(i as int)),
        decreases events.len() - i,
    {
        acc = update_rule_outcome(acc, &events[i]);
        proof {
            assert(events@.take(i + 1).drop_last() == events@.take(i as int));
        }
        i += 1;
    }
    assert(events@.take(events@.len() as int) == events@);
    match acc {
        Some(r) => r,
        None => RuleEvent::Skipped,
    }
}

/// Whether some event is a scenario failure.
pub open spec fn some_failed(es: Seq<ScenarioEvent>) -> bool {
    exists|i: int| 0 <= i < es.len() && (#[trigger] es[i]) is Failed
}

/// A rule fails exactly when one of its scenarios failed, and then with the
/// kind of the last such failure; otherwise it is passed or skipped.
pub proof fn lemma_rule_fails_iff_scenario_failed(es: Seq<ScenarioEvent>)
    ensures
        rule_result(es) is Failed <==> some_failed(es),
        rule_result(es) is Passed || rule_result(es) is Skipped || rule_result(es) is Failed,
    decreases es.len(),
{
    if es.len() > 0 {
        let init = es.drop_last();
        lemma_rule_fails_iff_scenario_failed(init);
        lemma_rule_fold_shape(init);
        if some_failed(init) {
            let i = choose|i: int| 0 <= i < init.len() && (#[trigger] init[i]) is Failed;
            assert(es[i] == init[i]);
        }
        if some_failed(es) && !(es.last() is Failed) {
            let i = choose|i: int| 0 <= i < es.len() && (#[trigger] es[i]) is Failed;
            assert(init[i] == es[i]);
        }
        if es.last() is Failed {
            assert(es[es.len() - 1] is Failed);
        }
    }
}

/// Whether some scenario of the rule passed.
pub open spec fn some_passed(es: Seq<ScenarioEvent>) -> bool {
    exists|i: int| 0 <= i < es.len() && (#[trigger] es[i]) is Passed
}

/// Whether some scenario was skipped after another one had passed.
pub open spec fn skipped_after_pass(es: Seq<ScenarioEvent>) -> bool {
    exists|i: int, j: int| 0 <= i < j < es.len() && (#[trigger] es[i]) is Passed && (#[trigger] es[j]) is Skipped
}

proof fn lemma_rule_fold_without_failure(es: Seq<ScenarioEvent>)
    requires
        !some_failed(es),
    ensures
        rule_fold(es) == if !some_passed(es) {
            None
        } else if skipped_after_pass(es) {
            Some(RuleEvent::Skipped)
        } else {
            Some(RuleEvent::Passed)
        },
    decreases es.len(),
{
    if es.len() > 0 {
        let init = es.drop_last();
        let n = es.len() - 1;
        assert forall|i: int| 0 <= i < init.len() implies init[i] == es[i] by {}
        assert(!some_failed(init)) by {
            if some_failed(init) {
                let i = choose|i: int| 0 <= i < init.len() && (#[trigger] init[i]) is Failed;
                assert(es[i] is Failed);
            }
        }
        lemma_rule_fold_without_failure(init);
        assert(!(es[n] is Failed));
        // what `es` adds to `init`: its last event
        assert(some_passed(es) == (some_passed(init) || es[n] is Passed)) by {
            if some_passed(es) {
                let i = choose|i: int| 0 <= i < es.len() && (#[trigger] es[i]) is Passed;
                if i < n {
                    assert(init[i] is Passed);
                }
            }
            if some_passed(init) {
                let i = choose|i: int| 0 <= i < init.len() && (#[trigger] init[i]) is Passed;
                assert(es[i] is Passed);
            }
        }
        assert(skipped_after_pass(es) == (skipped_after_pass(init) || (some_passed(init) && es[n] is Skipped))) by {
            if skipped_after_pass(es) {
                let (i, j) = choose|i: int, j: int| 0 <= i < j < es.len() && (#[trigger] es[i]) is Passed && (#[trigger] es[j]) is Skipped;
                assert(init[i] is Passed);
                if j < n {
                    assert(init[j] is Skipped);
                    assert(skipped_after_pass(init));
                } else {
                    assert(some_passed(init));
                }
            }
            if skipped_after_pass(init) {
                let (i, j) = choose|i: int, j: int| 0 <= i < j < init.len() && (#[trigger] init[i]) is Passed && (#[trigger] init[j]) is Skipped;
                assert(es[i] is Passed && es[j] is Skipped);
            }
            if some_passed(init) && es[n] is Skipped {
                let i = choose|i: int| 0 <= i < init.len() && (#[trigger] init[i]) is Passed;
                assert(es[i] is Passed && es[n] is Skipped);
            }
        }
        assert(es.last() == es[n]);
    }
}

/// Without a failure, a rule passes exactly when some scenario passed and no
/// scenario was skipped after a pass; otherwise it is skipped (a pass that
/// comes after a skip does not undo it).
pub proof fn lemma_rule_result_without_failure(es: Seq<ScenarioEvent>)
    requires
        !some_failed(es),
    ensures
        rule_result(es) == if some_passed(es) && !skipped_after_pass(es) {
            RuleEvent::Passed
        } else {
            RuleEvent::Skipped
        },
{
    lemma_rule_fold_without_failure(es);
}

/// A rule's outcome so far is never `Starting` or a scenario event.
proof fn lemma_rule_fold_shape(es: Seq<ScenarioEvent>)
    ensures
        rule_fold(es) matches Some(r) ==> (r is Passed || r is Skipped || r is Failed),
        rule_fold(es) is None ==> !some_failed(es),
        rule_fold(es) matches Some(r) && !(r is Failed) ==> !some_failed(es),
    decreases es.len(),
{
    if es.len() > 0 {
        let init = es.drop_last();
        lemma_rule_fold_shape(init);
        if some_failed(es) && !(es.last() is Failed) {
            let i = choose|i: int| 0 <= i < es.len() && (#[trigger] es[i]) is Failed;
            assert(init[i] == es[i]);
        }
    }
}

} // verus!
