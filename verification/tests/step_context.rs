use cucumber::gherkin::{LineCol, Step as GherkinStep, StepType};
use cucumber::step::Context;

fn create_test_step() -> GherkinStep {
    GherkinStep {
        keyword: "Given".to_string(),
        ty: StepType::Given,
        value: "I have 5 cucumbers".to_string(),
        docstring: None,
        table: None,
        position: LineCol { line: 1, col: 1 },
    }
}

#[test]
fn context_new_creates_context_with_step_and_matches() {
    let step = create_test_step();
    let matches = vec![
        (None, "I have 5 cucumbers".to_string()),
        (Some("count".to_string()), "5".to_string()),
    ];

    let context = Context::new(step.clone(), matches.clone());
    assert_eq!(context.step.value, step.value);
    assert_eq!(context.matches, matches);
}

#[test]
fn context_step_returns_step_reference() {
    let step = create_test_step();
    let context = Context::new(step.clone(), vec![]);

    assert_eq!(context.step().value, step.value);
    assert_eq!(context.step().ty, step.ty);
}

#[test]
fn context_matches_returns_matches_reference() {
    let step = create_test_step();
    let matches = vec![
        (None, "whole match".to_string()),
        (Some("group1".to_string()), "value1".to_string()),
    ];

    let context = Context::new(step, matches.clone());
    assert_eq!(context.matches(), &matches);
}

#[test]
fn context_get_named_capture_returns_correct_value() {
    let step = create_test_step();
    let matches = vec![
        (None, "I have 5 cucumbers".to_string()),
        (Some("count".to_string()), "5".to_string()),
        (Some("item".to_string()), "cucumbers".to_string()),
    ];

    let context = Context::new(step, matches);
    assert_eq!(context.get_named_capture("count"), Some("5"));
    assert_eq!(context.get_named_capture("item"), Some("cucumbers"));
    assert_eq!(context.get_named_capture("nonexistent"), None);
}

#[test]
fn context_get_capture_returns_correct_value_by_index() {
    let step = create_test_step();
    let matches = vec![
        (None, "whole match".to_string()),
        (Some("group1".to_string()), "value1".to_string()),
        (Some("group2".to_string()), "value2".to_string()),
    ];

    let context = Context::new(step, matches);
    assert_eq!(context.get_capture(0), Some("whole match"));
    assert_eq!(context.get_capture(1), Some("value1"));
    assert_eq!(context.get_capture(2), Some("value2"));
    assert_eq!(context.get_capture(3), None);
}

#[test]
fn context_capture_count_returns_correct_count() {
    let step = create_test_step();
    let matches = vec![
        (None, "whole match".to_string()),
        (Some("group1".to_string()), "value1".to_string()),
    ];

    let context = Context::new(step, matches);
    assert_eq!(context.capture_count(), 2);
}

#[test]
fn context_clone_works() {
    let step = create_test_step();
    let matches = vec![
        (None, "test".to_string()),
        (Some("group".to_string()), "value".to_string()),
    ];

    let context = Context::new(step.clone(), matches.clone());
    let cloned = context.clone();

    assert_eq!(cloned.step.value, step.value);
    assert_eq!(cloned.matches, matches);
}

#[test]
fn context_debug_format_works() {
    let step = create_test_step();
    let matches = vec![(None, "test".to_string())];

    let context = Context::new(step, matches);
    let debug_output = format!("{:?}", context);
    assert!(debug_output.contains("Context"));
    assert!(debug_output.contains("step"));
    assert!(debug_output.contains("matches"));
}

#[test]
fn context_named_capture_takes_the_first_of_equal_names() {
    let matches = vec![
        (Some("n".to_string()), "first".to_string()),
        (None, "unnamed".to_string()),
        (Some("n".to_string()), "second".to_string()),
    ];
    let context = Context::new(create_test_step(), matches);
    assert_eq!(context.get_named_capture("n"), Some("first"));
    assert_eq!(context.get_named_capture(""), None);
}

#[test]
fn step_clone_keeps_every_field() {
    let mut step = create_test_step();
    step.docstring = Some("doc".to_string());
    step.table = Some(cucumber::gherkin::Table {
        rows: vec![vec!["a".to_string(), "b".to_string()]],
        position: LineCol { line: 2, col: 3 },
    });
    let copy = step.clone();
    assert_eq!(copy.keyword, "Given");
    assert_eq!(copy.docstring.as_deref(), Some("doc"));
    assert_eq!(copy.table.as_ref().unwrap().rows, vec![vec!["a".to_string(), "b".to_string()]]);
    assert_eq!(copy.table.as_ref().unwrap().position, LineCol { line: 2, col: 3 });
    assert_eq!(copy.position, step.position);
}
