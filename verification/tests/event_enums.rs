use std::sync::Arc;

use cucumber::event::{
    Cucumber, Feature, Hook, HookType, Retries, RetryableScenario, Rule, Scenario, Source, Step,
    StepError,
};
use cucumber::gherkin;
use cucumber::step::Location;

#[derive(Debug, Clone)]
struct TestWorld {
    value: String,
}

fn create_test_step() -> gherkin::Step {
    gherkin::Step {
        keyword: "Given".to_string(),
        ty: gherkin::StepType::Given,
        value: "a test step".to_string(),
        docstring: None,
        table: None,
        position: gherkin::LineCol { line: 1, col: 1 },
    }
}

fn create_test_rule() -> gherkin::Rule {
    gherkin::Rule {
        keyword: "Rule".to_string(),
        name: "Test Rule".to_string(),
        background: None,
        scenarios: vec![],
        tags: vec![],
        position: gherkin::LineCol { line: 1, col: 1 },
    }
}

fn create_test_scenario() -> gherkin::Scenario {
    gherkin::Scenario {
        keyword: "Scenario".to_string(),
        name: "Test Scenario".to_string(),
        steps: vec![],
        examples: None,
        tags: vec![],
        position: gherkin::LineCol { line: 2, col: 1 },
    }
}

fn create_test_feature() -> gherkin::Feature {
    gherkin::Feature {
        keyword: "Feature".to_string(),
        name: "Test Feature".to_string(),
        background: None,
        scenarios: vec![],
        rules: vec![],
        tags: vec![],
        position: gherkin::LineCol { line: 1, col: 1 },
        path: None,
    }
}

#[test]
fn test_scenario_started_event() {
    let event: Scenario<TestWorld> = Scenario::Started;
    match event {
        Scenario::Started => {}
        _ => panic!("Expected Started event"),
    }
}

#[test]
fn test_scenario_finished_event() {
    let event: Scenario<TestWorld> = Scenario::Finished;
    match event {
        Scenario::Finished => {}
        _ => panic!("Expected Finished event"),
    }
}

#[test]
fn test_scenario_log_event() {
    let log_msg = "Test log message";
    let event: Scenario<TestWorld> = Scenario::Log(log_msg.to_string());
    match event {
        Scenario::Log(msg) => assert_eq!(msg, log_msg),
        _ => panic!("Expected Log event"),
    }
}

#[test]
fn test_scenario_clone() {
    let events = vec![
        Scenario::<TestWorld>::Started,
        Scenario::Finished,
        Scenario::Log("test".to_string()),
        Scenario::hook_started(HookType::Before),
        Scenario::hook_passed(HookType::After),
    ];

    for event in events {
        let cloned = event.clone();
        match (&event, &cloned) {
            (Scenario::Started, Scenario::Started) => {}
            (Scenario::Finished, Scenario::Finished) => {}
            (Scenario::Log(a), Scenario::Log(b)) => assert_eq!(a, b),
            (Scenario::Hook(t1, h1), Scenario::Hook(t2, h2)) => {
                assert_eq!(t1, t2);
                match (h1, h2) {
                    (Hook::Started, Hook::Started) => {}
                    (Hook::Passed, Hook::Passed) => {}
                    _ => {}
                }
            }
            _ => {}
        }
    }
}

#[test]
fn test_hook_events() {
    let started = Scenario::<TestWorld>::hook_started(HookType::Before);
    assert!(matches!(started, Scenario::Hook(HookType::Before, Hook::Started)));

    let passed = Scenario::<TestWorld>::hook_passed(HookType::After);
    assert!(matches!(passed, Scenario::Hook(HookType::After, Hook::Passed)));

    let world = Arc::new(TestWorld { value: "test".to_string() });
    let info = "Hook failed".to_string();
    let failed = Scenario::hook_failed(HookType::Before, Some(world.clone()), info.clone());

    match failed {
        Scenario::Hook(HookType::Before, Hook::Failed(w, i)) => {
            assert!(w.is_some());
            assert_eq!(w.unwrap().value, "test");
            assert_eq!(i, info);
        }
        _ => panic!("Expected Hook::Failed"),
    }
}

#[test]
fn test_step_started_events() {
    let step = create_test_step();

    let step_started = Scenario::<TestWorld>::step_started(Source::new(step.clone()));
    assert!(matches!(step_started, Scenario::Step(_, Step::Started)));

    let bg_step_started = Scenario::<TestWorld>::background_step_started(Source::new(step));
    assert!(matches!(bg_step_started, Scenario::Background(_, Step::Started)));
}

#[test]
fn test_step_passed_events() {
    let step = create_test_step();
    let captures = regex::Regex::new("test").unwrap().capture_locations();
    let loc = Location::new("file.rs", 10, 5);

    let step_passed =
        Scenario::<TestWorld>::step_passed(Source::new(step.clone()), captures.clone(), Some(loc));

    match step_passed {
        Scenario::Step(_, Step::Passed { location, .. }) => {
            assert!(location.is_some());
            assert_eq!(location.unwrap().line, 10);
        }
        _ => panic!("Expected Step::Passed"),
    }

    let bg_step_passed =
        Scenario::<TestWorld>::background_step_passed(Source::new(step), captures, Some(loc));

    assert!(matches!(bg_step_passed, Scenario::Background(_, Step::Passed { .. })));
}

#[test]
fn test_step_skipped_events() {
    let step = create_test_step();

    let step_skipped = Scenario::<TestWorld>::step_skipped(Source::new(step.clone()));
    assert!(matches!(step_skipped, Scenario::Step(_, Step::Skipped)));

    let bg_step_skipped = Scenario::<TestWorld>::background_step_skipped(Source::new(step));
    assert!(matches!(bg_step_skipped, Scenario::Background(_, Step::Skipped)));
}

#[test]
fn test_step_failed_events() {
    let step = create_test_step();
    let captures = regex::Regex::new("test").unwrap().capture_locations();
    let loc = Location::new("file.rs", 10, 5);
    let world = Arc::new(TestWorld { value: "test".to_string() });
    let error = StepError::NotFound;

    let step_failed = Scenario::step_failed(
        Source::new(step.clone()),
        Some(captures.clone()),
        Some(loc),
        Some(world.clone()),
        error.clone(),
    );

    match step_failed {
        Scenario::Step(_, Step::Failed { location, world: w, error: e, .. }) => {
            assert!(location.is_some());
            assert!(w.is_some());
            assert!(matches!(e, StepError::NotFound));
        }
        _ => panic!("Expected Step::Failed"),
    }

    let bg_step_failed = Scenario::background_step_failed(
        Source::new(step),
        Some(captures),
        Some(loc),
        Some(world),
        error,
    );

    assert!(matches!(bg_step_failed, Scenario::Background(_, Step::Failed { .. })));
}

#[test]
fn test_with_retries() {
    let event = Scenario::<TestWorld>::Started;
    let retries = Retries { current: 1, left: 2 };

    let retryable = event.with_retries(Some(retries));
    assert!(matches!(retryable.event, Scenario::Started));
    assert!(retryable.retries.is_some());
    assert_eq!(retryable.retries.unwrap().current, 1);
    assert_eq!(retryable.retries.unwrap().left, 2);

    let no_retry = Scenario::<TestWorld>::Finished.with_retries(None);
    assert!(no_retry.retries.is_none());
}

#[test]
fn test_retryable_scenario_clone() {
    let retries = Retries { current: 1, left: 2 };
    let retryable = RetryableScenario { event: Scenario::<TestWorld>::Started, retries: Some(retries) };

    let cloned = retryable.clone();
    assert!(matches!(cloned.event, Scenario::Started));
    assert_eq!(cloned.retries, retryable.retries);
}

#[test]
fn test_feature_started_event() {
    let event: Feature<TestWorld> = Feature::Started;
    assert!(matches!(event, Feature::Started));
}

#[test]
fn test_feature_finished_event() {
    let event: Feature<TestWorld> = Feature::Finished;
    assert!(matches!(event, Feature::Finished));
}

#[test]
fn test_feature_rule_event() {
    let rule = create_test_rule();
    let rule_event = Rule::<TestWorld>::Started;
    let event = Feature::Rule(Source::new(rule.clone()), rule_event);

    match event {
        Feature::Rule(r, Rule::Started) => {
            assert_eq!(r.name, "Test Rule");
        }
        _ => panic!("Expected Feature::Rule with Started event"),
    }
}

#[test]
fn test_feature_scenario_event() {
    let scenario = create_test_scenario();
    let scenario_event = RetryableScenario { event: Scenario::<TestWorld>::Started, retries: None };
    let event = Feature::Scenario(Source::new(scenario), scenario_event);

    match event {
        Feature::Scenario(s, RetryableScenario { event: Scenario::Started, retries }) => {
            assert_eq!(s.name, "Test Scenario");
            assert!(retries.is_none());
        }
        _ => panic!("Expected Feature::Scenario with Started event"),
    }
}

#[test]
fn test_feature_scenario_with_retries() {
    let scenario = create_test_scenario();
    let retries = Retries { current: 1, left: 2 };
    let scenario_event = RetryableScenario { event: Scenario::<TestWorld>::Finished, retries: Some(retries) };
    let event = Feature::Scenario(Source::new(scenario), scenario_event);

    match event {
        Feature::Scenario(_, RetryableScenario { event: Scenario::Finished, retries }) => {
            assert!(retries.is_some());
            let r = retries.unwrap();
            assert_eq!(r.current, 1);
            assert_eq!(r.left, 2);
        }
        _ => panic!("Expected Feature::Scenario with Finished event and retries"),
    }
}

#[test]
fn test_feature_clone() {
    let events = vec![
        Feature::<TestWorld>::Started,
        Feature::Finished,
        Feature::Rule(Source::new(create_test_rule()), Rule::Started),
        Feature::Rule(Source::new(create_test_rule()), Rule::Finished),
        Feature::Scenario(
            Source::new(create_test_scenario()),
            RetryableScenario { event: Scenario::Started, retries: None },
        ),
    ];

    for event in events {
        let cloned = event.clone();
        match (&event, &cloned) {
            (Feature::Started, Feature::Started) => {}
            (Feature::Finished, Feature::Finished) => {}
            (Feature::Rule(r1, e1), Feature::Rule(r2, e2)) => {
                assert_eq!(r1.name, r2.name);
                match (e1, e2) {
                    (Rule::Started, Rule::Started) => {}
                    (Rule::Finished, Rule::Finished) => {}
                    _ => {}
                }
            }
            (Feature::Scenario(s1, e1), Feature::Scenario(s2, e2)) => {
                assert_eq!(s1.name, s2.name);
                assert_eq!(e1.retries, e2.retries);
            }
            _ => panic!("Clone produced different variant"),
        }
    }
}

#[test]
fn test_nested_rule_scenarios() {
    let rule = create_test_rule();
    let scenario = create_test_scenario();

    let rule_event = Rule::Scenario(
        Source::new(scenario),
        RetryableScenario { event: Scenario::<TestWorld>::Started, retries: None },
    );

    let feature_event = Feature::Rule(Source::new(rule), rule_event);

    match feature_event {
        Feature::Rule(r, Rule::Scenario(s, _)) => {
            assert_eq!(r.name, "Test Rule");
            assert_eq!(s.name, "Test Scenario");
        }
        _ => panic!("Expected nested Rule::Scenario event"),
    }
}

#[test]
fn test_feature_event_variants_coverage() {
    let rule = create_test_rule();
    let scenario = create_test_scenario();

    let variants: Vec<Feature<TestWorld>> = vec![
        Feature::Started,
        Feature::Rule(Source::new(rule.clone()), Rule::Started),
        Feature::Rule(Source::new(rule), Rule::Finished),
        Feature::Scenario(
            Source::new(create_test_scenario()),
            RetryableScenario { event: Scenario::Started, retries: None },
        ),
        Feature::Scenario(
            Source::new(scenario),
            RetryableScenario { event: Scenario::Finished, retries: Some(Retries { current: 1, left: 0 }) },
        ),
        Feature::Finished,
    ];

    for variant in variants {
        match variant {
            Feature::Started => assert!(true),
            Feature::Rule(_, _) => assert!(true),
            Feature::Scenario(_, _) => assert!(true),
            Feature::Finished => assert!(true),
        }
    }
}

#[test]
fn cucumber_constructors_nest_events() {
    let feat = Source::new(create_test_feature());
    let rule = Source::new(create_test_rule());

    assert!(matches!(Cucumber::<TestWorld>::feature_started(feat.clone()), Cucumber::Feature(_, Feature::Started)));
    assert!(matches!(Cucumber::<TestWorld>::feature_finished(feat.clone()), Cucumber::Feature(_, Feature::Finished)));
    assert!(matches!(
        Cucumber::<TestWorld>::rule_started(feat.clone(), rule.clone()),
        Cucumber::Feature(_, Feature::Rule(_, Rule::Started))
    ));
    assert!(matches!(
        Cucumber::<TestWorld>::rule_finished(feat.clone(), rule.clone()),
        Cucumber::Feature(_, Feature::Rule(_, Rule::Finished))
    ));

    let ev = Scenario::<TestWorld>::Log("x".to_string()).with_retries(None);
    match Cucumber::scenario(feat.clone(), Some(rule), Source::new(create_test_scenario()), ev) {
        Cucumber::Feature(f, Feature::Rule(r, Rule::Scenario(s, RetryableScenario { event: Scenario::Log(m), .. }))) => {
            assert_eq!(f.name, "Test Feature");
            assert_eq!(r.name, "Test Rule");
            assert_eq!(s.name, "Test Scenario");
            assert_eq!(m, "x");
        }
        _ => panic!("Expected a scenario event inside its rule"),
    }

    let ev = Scenario::<TestWorld>::Finished.with_retries(Some(Retries::initial(1)));
    assert!(matches!(
        Cucumber::scenario(feat, None, Source::new(create_test_scenario()), ev),
        Cucumber::Feature(_, Feature::Scenario(_, RetryableScenario { event: Scenario::Finished, retries: Some(_) }))
    ));
}

#[test]
fn parsing_finished_clone_keeps_counts() {
    let ev: Cucumber<TestWorld> =
        Cucumber::ParsingFinished { features: 1, rules: 2, scenarios: 3, steps: 4, parser_errors: 5 };
    match ev.clone() {
        Cucumber::ParsingFinished { features, rules, scenarios, steps, parser_errors } => {
            assert_eq!((features, rules, scenarios, steps, parser_errors), (1, 2, 3, 4, 5));
        }
        _ => panic!("Expected ParsingFinished"),
    }
}

#[test]
fn step_failed_clone_keeps_world_and_captures() {
    let world = Arc::new(TestWorld { value: "w".to_string() });
    let captures = regex::Regex::new("(a)(b)").unwrap().capture_locations();
    let ev: Step<TestWorld> = Step::Failed { captures: Some(captures), location: None, world: Some(world), error: StepError::NotFound };
    match ev.clone() {
        Step::Failed { captures: Some(c), location: None, world: Some(w), error: StepError::NotFound } => {
            assert_eq!(c.len(), 3);
            assert_eq!(w.value, "w");
        }
        _ => panic!("Expected the same failure"),
    }
}
