//! Scenario identifiers and the failures that end a scenario early.

use vstd::prelude::*;

use crate::event::{clone_opt_captures, same_opt_captures, same_step_error, Info, Metadata, ScenarioFinished, Source, StepError};
use crate::gherkin::Step;
use crate::step::Location;
use crate::text::{decimal, push_decimal, push_str};

verus! {

/// Identifier of a scenario run; a retried run gets a new one.
#[derive(Clone, Copy, Debug, PartialEq, Eq, Structural, Hash)]
pub struct ScenarioId(pub u64);

/// Source of fresh [`ScenarioId`]s: each one is the previous plus one,
/// wrapping around after `u64::MAX`.
#[derive(Debug)]
pub struct ScenarioIds {
    next: u64,
}

impl ScenarioIds {
    /// The identifier the next call of [`ScenarioId::new`] hands out.
    pub closed spec fn next_id(&self) -> u64 {
        self.next
    }

    /// A source starting at `0`.
    pub fn new() -> (g: Self)
        ensures
            g.next_id() == 0,
    {
        ScenarioIds { next: 0 }
    }
}

impl ScenarioId {
    /// Creates a new unique [`ScenarioId`], taken from `ids`.
    pub fn new(ids: &mut ScenarioIds) -> (id: Self)
        ensures
            id.0 == old(ids).next_id(),
            final(ids).next_id() == (old(ids).next_id() + 1) % 0x1_0000_0000_0000_0000,
    {
        let id = ScenarioId(ids.next);
        ids.next = ids.next.wrapping_add(1);
        id
    }

    /// Display form: the number in decimal.
    pub fn to_string(&self) -> (s: String)
        ensures
            s@ == decimal(self.0 as nat),
    {
        let mut s = String::new();
        push_decimal(&mut s, self.0);
        s
    }
}

/// Identifiers handed out one after another are distinct until the counter
/// wraps around.
pub proof fn lemma_ids_distinct(first: u64, second: u64)
    requires
        first < u64::MAX,
        second == (first + 1) % 0x1_0000_0000_0000_0000,
    ensures
        first != second,
        second == first + 1,
{
}

/// Failure met while running a `Before` hook or a step.
#[derive(Debug)]
pub enum ExecutionFailure<W> {
    /// The `Before` hook panicked.
    BeforeHookPanicked {
        /// World at the time the hook panicked.
        world: Option<W>,
        /// What the panic carried.
        panic_info: Info,
        /// Metadata at the time the hook panicked.
        meta: Metadata,
    },
    /// A step was skipped.
    StepSkipped(Option<W>),
    /// A step failed.
    StepPanicked {
        /// World at the time the step failed.
        world: Option<W>,
        /// The step itself.
        step: Source<Step>,
        /// Capture locations of the step's pattern.
        captures: Option<::regex::CaptureLocations>,
        /// Location of the step function that matched the step.
        loc: Option<Location>,
        /// Error of the step.
        err: StepError,
        /// Metadata at the time the step failed.
        meta: Metadata,
        /// Whether the step was a background step.
        is_background: bool,
    },
    /// The `Before` hook failed.
    Before,
}

/// The world a failure holds, if any.
pub open spec fn failure_world<W>(f: ExecutionFailure<W>) -> Option<W> {
    match f {
        ExecutionFailure::BeforeHookPanicked { world, .. } => world,
        ExecutionFailure::StepSkipped(world) => world,
        ExecutionFailure::StepPanicked { world, .. } => world,
        ExecutionFailure::Before => None,
    }
}

/// The same failure, holding no world.
pub open spec fn without_world<W>(f: ExecutionFailure<W>) -> ExecutionFailure<W> {
    match f {
        ExecutionFailure::BeforeHookPanicked { panic_info, meta, .. } =>
            ExecutionFailure::BeforeHookPanicked { world: None, panic_info, meta },
        ExecutionFailure::StepSkipped(_) => ExecutionFailure::StepSkipped(None),
        ExecutionFailure::StepPanicked { step, captures, loc, err, meta, is_background, .. } =>
            ExecutionFailure::StepPanicked { world: None, step, captures, loc, err, meta, is_background },
        ExecutionFailure::Before => ExecutionFailure::Before,
    }
}

/// `e` is the event explaining why a scenario finished on `failure`: the
/// `Before` hook's panic message, a skipped step, or the failed step's
/// captures, location and error.
pub open spec fn finished_event_for<W>(failure: ExecutionFailure<W>, e: ScenarioFinished) -> bool {
    match failure {
        ExecutionFailure::BeforeHookPanicked { panic_info, .. } =>
            e matches ScenarioFinished::BeforeHookFailed(i) && i@ == panic_info@,
        ExecutionFailure::StepSkipped(_) => e matches ScenarioFinished::StepSkipped,
        ExecutionFailure::StepPanicked { captures, loc, err, .. } =>
            e matches ScenarioFinished::StepFailed(c, l, x) && l == loc
                && same_opt_captures(captures, c) && same_step_error(err, x),
        ExecutionFailure::Before =>
            e matches ScenarioFinished::BeforeHookFailed(i) && i@ == "Before hook failed"@,
    }
}

impl<W> ExecutionFailure<W> {
    /// Takes the world out, leaving `None` in its place.
    pub fn take_world(&mut self) -> (w: Option<W>)
        ensures
            w == failure_world(*old(self)),
            *final(self) == without_world(*old(self)),
    {
        match self {
            ExecutionFailure::BeforeHookPanicked { world, .. } => world.take(),
            ExecutionFailure::StepSkipped(world) => world.take(),
            ExecutionFailure::StepPanicked { world, .. } => world.take(),
            ExecutionFailure::Before => None,
        }
    }

    /// Whether this failure makes the scenario fail: a panicked hook or step
    /// (or a failed `Before` hook) does, a skipped step does not.
    pub fn is_failure(&self) -> (r: bool)
        ensures
            r == !(*self is StepSkipped),
    {
        match self {
            ExecutionFailure::StepSkipped(_) => false,
            _ => true,
        }
    }

    /// The event explaining why the scenario finished.
    pub fn get_scenario_finished_event(&self) -> (e: ScenarioFinished)
        ensures
            finished_event_for(*self, e),
    {
        match self {
            ExecutionFailure::BeforeHookPanicked { panic_info, .. } => {
                ScenarioFinished::BeforeHookFailed(panic_info.clone())
            },
            ExecutionFailure::StepSkipped(_) => ScenarioFinished::StepSkipped,
            ExecutionFailure::StepPanicked { captures, loc, err, .. } => {
                ScenarioFinished::StepFailed(clone_opt_captures(captures), *loc, err.clone())
            },
            ExecutionFailure::Before => {
                let mut m = String::new();
                push_str(&mut m, "Before hook failed");
                ScenarioFinished::BeforeHookFailed(m)
            },
        }
    }
}

/// Metadata of the events of an `After` hook.
#[derive(Debug)]
pub struct AfterHookEventsMeta {
    /// Metadata at the time the hook started.
    pub started: Metadata,
    /// Metadata at the time the hook finished.
    pub finished: Metadata,
    /// How the scenario ended.
    pub scenario_finished: ScenarioFinished,
}

/// Turns a panic message into an [`Info`].
pub fn coerce_into_info(val: &str) -> (i: Info)
    ensures
        i@ == val@,
{
    let mut s = String::new();
    push_str(&mut s, val);
    s
}

} // verus!
