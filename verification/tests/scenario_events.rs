use cucumber::event::{Event, HookType};
use cucumber::event::{ScenarioFinished, StepError};
use cucumber::step::Location;

#[test]
fn test_scenario_finished_variants() {
    let info = "Before hook failed".to_string();
    let before_failed = ScenarioFinished::BeforeHookFailed(info);
    assert!(matches!(before_failed, ScenarioFinished::BeforeHookFailed(_)));

    let step_passed = ScenarioFinished::StepPassed;
    assert!(matches!(step_passed, ScenarioFinished::StepPassed));

    let step_skipped = ScenarioFinished::StepSkipped;
    assert!(matches!(step_skipped, ScenarioFinished::StepSkipped));

    let captures = regex::Regex::new("test").unwrap().capture_locations();
    let loc = Location::new("file.rs", 10, 5);
    let error = StepError::NotFound;
    let step_failed = ScenarioFinished::StepFailed(Some(captures), Some(loc), error);

    match step_failed {
        ScenarioFinished::StepFailed(c, l, e) => {
            assert!(c.is_some());
            assert!(l.is_some());
            assert!(matches!(e, StepError::NotFound));
        }
        _ => panic!("Expected StepFailed"),
    }
}

#[test]
fn test_scenario_finished_clone() {
    let variants = vec![
        ScenarioFinished::BeforeHookFailed("error".to_string()),
        ScenarioFinished::StepPassed,
        ScenarioFinished::StepSkipped,
        ScenarioFinished::StepFailed(None, None, StepError::NotFound),
    ];

    for variant in variants {
        let cloned = variant.clone();
        match (&variant, &cloned) {
            (ScenarioFinished::BeforeHookFailed(_), ScenarioFinished::BeforeHookFailed(_)) => {}
            (ScenarioFinished::StepPassed, ScenarioFinished::StepPassed) => {}
            (ScenarioFinished::StepSkipped, ScenarioFinished::StepSkipped) => {}
            (ScenarioFinished::StepFailed(..), ScenarioFinished::StepFailed(..)) => {}
            _ => panic!("Clone produced different variant"),
        }
    }
}

#[test]
fn step_error_display_forms() {
    assert_eq!(StepError::NotFound.to_string(), "Step doesn't match any function");
    assert_eq!(
        StepError::Panic("boom".to_string()).to_string(),
        "Step panicked. Captured output: boom"
    );
    let err = cucumber::step::AmbiguousMatchError::new(vec![(
        cucumber::step::HashableRegex::new(regex::Regex::new("x").unwrap()),
        None,
    )]);
    assert_eq!(
        StepError::AmbiguousMatch(err).to_string(),
        "Step match is ambiguous: Possible matches:\nx"
    );
}

#[test]
fn event_metadata_is_kept_by_map_and_wrap() {
    let e = Event::new(2u32);
    let (v, meta) = e.split();
    assert_eq!(v, 2);
    let wrapped = meta.wrap("x");
    assert_eq!(wrapped.value, "x");
    let mapped = Event::new(3u32).map(|v| v * 10);
    assert_eq!(mapped.into_inner(), 30);
    let (old, replaced) = Event::new(1u8).replace('c');
    assert_eq!(old, 1);
    assert_eq!(replaced.value, 'c');
    assert_eq!(Event::new(1u8).insert(5i64).value, 5);
    assert_eq!(HookType::Before.to_string(), "Before");
    assert_eq!(HookType::After.to_string(), "After");
}
