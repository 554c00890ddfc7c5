use std::sync::Arc;

use cucumber::event::{Cucumber, Event, Feature, Hook, HookType, Retries, RetryableScenario, Rule, Scenario, ScenarioFinished, Source, Step, StepError};
use cucumber::gherkin;
use cucumber::runner::basic::executor::{after_hook_events, failure_event, step_event};
use cucumber::runner::basic::supporting_structures::{AfterHookEventsMeta, ExecutionFailure};

#[derive(Debug)]
struct W(u8);

fn feature() -> Source<gherkin::Feature> {
    Source::new(gherkin::Feature {
        keyword: "Feature".to_string(),
        name: "F".to_string(),
        background: None,
        scenarios: vec![],
        rules: vec![],
        tags: vec![],
        position: gherkin::LineCol { line: 1, col: 1 },
        path: None,
    })
}

fn rule() -> Source<gherkin::Rule> {
    Source::new(gherkin::Rule {
        keyword: "Rule".to_string(),
        name: "R".to_string(),
        background: None,
        scenarios: vec![],
        tags: vec![],
        position: gherkin::LineCol { line: 2, col: 1 },
    })
}

fn scenario() -> Source<gherkin::Scenario> {
    Source::new(gherkin::Scenario {
        keyword: "Scenario".to_string(),
        name: "S".to_string(),
        steps: vec![],
        examples: None,
        tags: vec![],
        position: gherkin::LineCol { line: 3, col: 1 },
    })
}

fn step() -> Source<gherkin::Step> {
    Source::new(gherkin::Step {
        keyword: "Given".to_string(),
        ty: gherkin::StepType::Given,
        value: "x".to_string(),
        docstring: None,
        table: None,
        position: gherkin::LineCol { line: 4, col: 1 },
    })
}

#[test]
fn skipped_step_and_failed_before_hook_report_nothing_more() {
    assert!(failure_event::<W>(feature(), None, scenario(), None, ExecutionFailure::StepSkipped(None), None).is_none());
    assert!(failure_event::<W>(feature(), None, scenario(), None, ExecutionFailure::Before, None).is_none());
}

#[test]
fn panicked_before_hook_is_reported_as_a_failed_hook() {
    let err = ExecutionFailure::BeforeHookPanicked { world: None, panic_info: "boom".to_string(), meta: Event::new(()) };
    let (ev, _) = failure_event(feature(), Some(rule()), scenario(), Some(Arc::new(W(1))), err, Some(Retries::initial(2))).unwrap();
    match ev {
        Cucumber::Feature(f, Feature::Rule(r, Rule::Scenario(s, RetryableScenario { event: Scenario::Hook(HookType::Before, Hook::Failed(Some(w), info)), retries: Some(rt) }))) => {
            assert_eq!(f.name, "F");
            assert_eq!(r.name, "R");
            assert_eq!(s.name, "S");
            assert_eq!(w.0, 1);
            assert_eq!(info, "boom");
            assert_eq!(rt.left, 2);
        }
        other => panic!("unexpected {other:?}"),
    }
}

#[test]
fn panicked_step_is_reported_as_background_or_step_failure() {
    for background in [true, false] {
        let err = ExecutionFailure::StepPanicked {
            world: None,
            step: step(),
            captures: None,
            loc: None,
            err: StepError::NotFound,
            meta: Event::new(()),
            is_background: background,
        };
        let (ev, _) = failure_event::<W>(feature(), None, scenario(), None, err, None).unwrap();
        match ev {
            Cucumber::Feature(_, Feature::Scenario(_, RetryableScenario { event, retries: None })) => match (background, event) {
                (true, Scenario::Background(st, Step::Failed { error: StepError::NotFound, .. })) => assert_eq!(st.value, "x"),
                (false, Scenario::Step(st, Step::Failed { error: StepError::NotFound, .. })) => assert_eq!(st.value, "x"),
                (_, other) => panic!("unexpected {other:?}"),
            },
            other => panic!("unexpected {other:?}"),
        }
    }
}

#[test]
fn after_hook_events_are_start_then_outcome() {
    assert!(after_hook_events::<W>(feature(), None, scenario(), None, None, None, None).is_empty());

    let meta = AfterHookEventsMeta { started: Event::new(()), finished: Event::new(()), scenario_finished: ScenarioFinished::StepPassed };
    let evs = after_hook_events::<W>(feature(), None, scenario(), None, Some(meta), None, None);
    assert_eq!(evs.len(), 2);
    assert!(matches!(&evs[0].0, Cucumber::Feature(_, Feature::Scenario(_, RetryableScenario { event: Scenario::Hook(HookType::After, Hook::Started), .. }))));
    assert!(matches!(&evs[1].0, Cucumber::Feature(_, Feature::Scenario(_, RetryableScenario { event: Scenario::Hook(HookType::After, Hook::Passed), .. }))));

    let meta = AfterHookEventsMeta { started: Event::new(()), finished: Event::new(()), scenario_finished: ScenarioFinished::StepPassed };
    let evs = after_hook_events::<W>(feature(), Some(rule()), scenario(), None, Some(meta), Some("late".to_string()), None);
    match &evs[1].0 {
        Cucumber::Feature(_, Feature::Rule(_, Rule::Scenario(_, RetryableScenario { event: Scenario::Hook(HookType::After, Hook::Failed(None, m)), .. }))) => assert_eq!(m, "late"),
        other => panic!("unexpected {other:?}"),
    }
}

#[test]
fn test_executor_emit_failed_events_step_skipped() {
    let failure = ExecutionFailure::StepSkipped(None);

    // No event is emitted for a skipped step.
    assert!(failure_event::<W>(feature(), None, scenario(), None, failure, None).is_none());
}

#[test]
fn test_executor_emit_failed_events_before_hook_panicked() {
    let failure = ExecutionFailure::BeforeHookPanicked {
        world: None,
        panic_info: "test panic".to_string(),
        meta: Event::new(()),
    };

    let (event, _) = failure_event::<W>(feature(), None, scenario(), None, failure, None).unwrap();
    match event {
        Cucumber::Feature(_, Feature::Scenario(_, scenario_event)) => match scenario_event.event {
            Scenario::Hook(HookType::Before, Hook::Failed(..)) => {}
            _ => panic!("Expected Before Hook Failed event"),
        },
        _ => panic!("Expected Feature::Scenario event"),
    }
}

#[test]
fn test_step_executor_emit_skipped_event() {
    let events = vec![step_event::<W>(feature(), None, scenario(), step(), false, Step::Skipped, None)];
    assert_eq!(events.len(), 1);
    assert!(matches!(
        &events[0],
        Cucumber::Feature(_, Feature::Scenario(_, RetryableScenario { event: Scenario::Step(_, Step::Skipped), retries: None }))
    ));
    let bg = step_event::<W>(feature(), Some(rule()), scenario(), step(), true, Step::Started, Some(Retries::initial(1)));
    assert!(matches!(
        bg,
        Cucumber::Feature(_, Feature::Rule(_, Rule::Scenario(_, RetryableScenario { event: Scenario::Background(_, Step::Started), retries: Some(_) }))))
    );
}

#[test]
fn test_after_hook_events_meta_creation() {
    let meta = AfterHookEventsMeta {
        started: Event::new(()),
        finished: Event::new(()),
        scenario_finished: ScenarioFinished::StepPassed,
    };

    assert!(matches!(meta.started, _));
    assert!(matches!(meta.finished, _));
    assert!(matches!(meta.scenario_finished, ScenarioFinished::StepPassed));
}

#[test]
fn test_after_hook_events_meta_default_values() {
    let meta = AfterHookEventsMeta {
        started: Event::new(()),
        finished: Event::new(()),
        scenario_finished: ScenarioFinished::StepPassed,
    };

    assert!(matches!(meta.started, _));
    assert!(matches!(meta.finished, _));
}
