use std::collections::HashMap;
use cucumber::event::{Metadata, ScenarioFinished, Source, StepError};
use cucumber::gherkin::{LineCol, Step, StepType};
use cucumber::runner::basic::supporting_structures::{coerce_into_info, AfterHookEventsMeta, ExecutionFailure};
use cucumber::runner::basic::{ScenarioId, ScenarioIds};

#[test]
fn test_scenario_id_creation() {
    let mut ids = ScenarioIds::new();
    let id1 = ScenarioId::new(&mut ids);
    let id2 = ScenarioId::new(&mut ids);

    assert_ne!(id1, id2);
    assert!(id2.0 > id1.0);
}

#[test]
fn test_scenario_id_display() {
    let id = ScenarioId(42);
    assert_eq!(id.to_string(), "42");
}

#[test]
fn test_scenario_id_hash() {
    let id1 = ScenarioId(1);
    let id2 = ScenarioId(2);

    let mut map = HashMap::new();
    map.insert(id1, "first");
    map.insert(id2, "second");

    assert_eq!(map.get(&id1), Some(&"first"));
    assert_eq!(map.get(&id2), Some(&"second"));
}

#[test]
fn test_execution_failure_world_take() {
    #[derive(Debug, PartialEq)]
    struct TestWorld(i32);

    let mut failure = ExecutionFailure::StepSkipped(Some(TestWorld(42)));
    let world = failure.take_world();

    assert_eq!(world, Some(TestWorld(42)));
    assert_eq!(failure.take_world(), None);
}

#[test]
fn test_execution_failure_scenario_finished_event() {
    let failure = ExecutionFailure::<()>::StepSkipped(None);
    let event = failure.get_scenario_finished_event();
    assert!(matches!(event, ScenarioFinished::StepSkipped));
}

#[test]
fn test_coerce_into_info() {
    let info = coerce_into_info("test string");
    assert_eq!(info, "test string");
}

#[test]
fn test_after_hook_events_meta() {
    let _meta = AfterHookEventsMeta {
        started: Metadata::new(()),
        finished: Metadata::new(()),
        scenario_finished: ScenarioFinished::StepPassed,
    };
}

#[test]
fn test_execution_failure_before_hook_panicked() {
    let info = coerce_into_info("panic message");
    let meta = Metadata::new(());

    let failure = ExecutionFailure::<i32>::BeforeHookPanicked { world: Some(42), panic_info: info.clone(), meta };

    match failure {
        ExecutionFailure::BeforeHookPanicked { world, panic_info, .. } => {
            assert_eq!(world, Some(42));
            assert_eq!(panic_info, "panic message");
        }
        _ => panic!("Expected BeforeHookPanicked variant"),
    }
}

#[test]
fn test_execution_failure_step_panicked() {
    let step = Source::new(Step {
        ty: StepType::Given,
        value: "test step".to_string(),
        docstring: None,
        table: None,
        keyword: "Given".to_string(),
        position: LineCol { line: 1, col: 1 },
    });

    let failure = ExecutionFailure::<()>::StepPanicked {
        world: None,
        step,
        captures: None,
        loc: None,
        err: StepError::Panic(coerce_into_info("step panic")),
        meta: Metadata::new(()),
        is_background: false,
    };

    match failure {
        ExecutionFailure::StepPanicked { is_background, .. } => {
            assert!(!is_background);
        }
        _ => panic!("Expected StepPanicked variant"),
    }
}

#[test]
fn scenario_finished_event_of_each_failure() {
    let before = ExecutionFailure::<()>::Before.get_scenario_finished_event();
    match before {
        ScenarioFinished::BeforeHookFailed(m) => assert_eq!(m, "Before hook failed"),
        _ => panic!("Expected BeforeHookFailed"),
    }
    let panicked = ExecutionFailure::<()>::BeforeHookPanicked {
        world: None,
        panic_info: "oops".to_string(),
        meta: Metadata::new(()),
    };
    match panicked.get_scenario_finished_event() {
        ScenarioFinished::BeforeHookFailed(m) => assert_eq!(m, "oops"),
        _ => panic!("Expected BeforeHookFailed"),
    }
}

#[test]
fn scenario_ids_wrap_around() {
    let mut ids = ScenarioIds::new();
    for _ in 0..3 {
        let _ = ScenarioId::new(&mut ids);
    }
    assert_eq!(ScenarioId::new(&mut ids), ScenarioId(3));
}
