use cucumber::event::Retries;
use cucumber::gherkin::{Feature, LineCol, Rule, Scenario};
use cucumber::runner::basic::builder::{default_which_scenario, Basic};
use cucumber::runner::basic::{Cli, RetryOptions, ScenarioType};
use cucumber::step::{Collection, Context};
use cucumber::tag::TagOperation;
use cucumber::time::Duration;
use regex::Regex;

struct TestWorld;

type StepFn = fn(&mut TestWorld, Context);
type WhichFn = fn(&Feature, Option<&Rule>, &Scenario) -> ScenarioType;
type RetryFn = fn(&Feature, Option<&Rule>, &Scenario, &Cli) -> Option<RetryOptions>;

fn default_basic() -> Basic<StepFn, WhichFn, RetryFn, (), ()> {
    Basic::new(default_which_scenario as WhichFn, RetryOptions::parse_from_tags as RetryFn)
}

fn noop(_w: &mut TestWorld, _c: Context) {}

fn scenario_tagged(tags: &[&str]) -> Scenario {
    Scenario {
        keyword: "Scenario".to_string(),
        name: "Test".to_string(),
        steps: vec![],
        examples: None,
        tags: tags.iter().map(|t| t.to_string()).collect(),
        position: LineCol { line: 1, col: 1 },
    }
}

fn feature_tagged(tags: &[&str]) -> Feature {
    Feature {
        keyword: "Feature".to_string(),
        name: "Test Feature".to_string(),
        background: None,
        scenarios: vec![],
        rules: vec![],
        tags: tags.iter().map(|t| t.to_string()).collect(),
        position: LineCol { line: 1, col: 1 },
        path: None,
    }
}

fn rule_tagged(tags: &[&str]) -> Rule {
    Rule {
        keyword: "Rule".to_string(),
        name: "R".to_string(),
        background: None,
        scenarios: vec![],
        tags: tags.iter().map(|t| t.to_string()).collect(),
        position: LineCol { line: 1, col: 1 },
    }
}

#[test]
fn test_basic_default() {
    let basic = default_basic();
    assert_eq!(basic.max_concurrent_scenarios, Some(64));
    assert_eq!(basic.retries, None);
    assert_eq!(basic.retry_after, None);
    assert!(basic.retry_filter.is_none());
    assert!(!basic.fail_fast);
}

#[test]
fn test_basic_builder_methods() {
    let basic = default_basic()
        .max_concurrent_scenarios(Some(10))
        .retries(Some(3))
        .retry_after(Some(Duration::from_secs(1)))
        .fail_fast();

    assert_eq!(basic.max_concurrent_scenarios, Some(10));
    assert_eq!(basic.retries, Some(3));
    assert_eq!(basic.retry_after, Some(Duration::from_secs(1)));
    assert!(basic.fail_fast);
}

#[test]
fn test_basic_clone() {
    let basic = default_basic().max_concurrent_scenarios(Some(5)).retries(Some(2));

    let cloned = basic.clone();
    assert_eq!(cloned.max_concurrent_scenarios, Some(5));
    assert_eq!(cloned.retries, Some(2));
}

#[test]
fn test_retry_filter() {
    let tag_expr = TagOperation::Tag("retry".to_string());
    let basic = default_basic().retry_filter(Some(tag_expr));

    assert!(basic.retry_filter.is_some());

    let basic_no_filter = default_basic().retry_filter(None);
    assert!(basic_no_filter.retry_filter.is_none());
}

#[test]
fn test_which_scenario_function() {
    let which_fn = |_feature: &Feature, _rule: Option<&Rule>, scenario: &Scenario| {
        if scenario.tags.contains(&"@serial".to_string()) {
            ScenarioType::Serial
        } else {
            ScenarioType::Concurrent
        }
    };

    let basic = default_basic().which_scenario(which_fn);

    let scenario = scenario_tagged(&["@serial"]);
    let feature = feature_tagged(&[]);

    let scenario_type = (basic.which_scenario)(&feature, None, &scenario);
    assert_eq!(scenario_type, ScenarioType::Serial);
}

#[test]
fn test_retry_options_function() {
    let retry_fn = |_feature: &Feature, _rule: Option<&Rule>, scenario: &Scenario, _cli: &Cli| {
        if scenario.tags.contains(&"@retry".to_string()) {
            Some(RetryOptions { retries: Retries { current: 0, left: 3 }, after: None })
        } else {
            None
        }
    };

    let basic = default_basic().retry_options(retry_fn);

    let got = (basic.retry_options)(&feature_tagged(&[]), None, &scenario_tagged(&["@retry"]), &Cli::default());
    assert_eq!(got.unwrap().retries.left, 3);
}

#[test]
fn test_before_hook() {
    let basic = default_basic();
    assert!(basic.before_hook.is_none());
    let basic = basic.before(7u8);
    assert_eq!(basic.before_hook, Some(7u8));
}

#[test]
fn test_after_hook() {
    let basic = default_basic();
    assert!(basic.after_hook.is_none());
    let basic = basic.after("done");
    assert_eq!(basic.after_hook, Some("done"));
}

#[test]
fn test_steps_collection() {
    let steps = Collection::<StepFn>::new().given(None, Regex::new("x").unwrap(), noop as StepFn);
    let basic = default_basic().steps(steps.clone());

    assert_eq!(basic.max_concurrent_scenarios, Some(64));
    assert_eq!(basic.steps.given.len(), 1);
}

#[test]
fn test_given_when_then_steps() {
    let basic = default_basic()
        .given(Regex::new(r"^a test$").unwrap(), noop as StepFn)
        .when(Regex::new(r"^something happens$").unwrap(), noop as StepFn)
        .then_step(Regex::new(r"^result is (\d+)$").unwrap(), noop as StepFn);

    assert_eq!(basic.max_concurrent_scenarios, Some(64));
    assert_eq!(basic.steps.given.len(), 1);
    assert_eq!(basic.steps.when.len(), 1);
    assert_eq!(basic.steps.then_steps.len(), 1);
}

#[test]
fn test_max_concurrent_scenarios_options() {
    let basic_some = default_basic().max_concurrent_scenarios(Some(32));
    assert_eq!(basic_some.max_concurrent_scenarios, Some(32));

    let basic_usize = default_basic().max_concurrent_scenarios(Some(16));
    assert_eq!(basic_usize.max_concurrent_scenarios, Some(16));

    let basic_none = default_basic().max_concurrent_scenarios(None);
    assert_eq!(basic_none.max_concurrent_scenarios, None);
}

#[test]
fn test_retries_options() {
    let basic_some = default_basic().retries(Some(5));
    assert_eq!(basic_some.retries, Some(5));

    let basic_usize = default_basic().retries(Some(3));
    assert_eq!(basic_usize.retries, Some(3));

    let basic_none = default_basic().retries(None);
    assert_eq!(basic_none.retries, None);
}

#[test]
fn test_retry_after_options() {
    let duration = Duration::from_millis(500);
    let basic_some = default_basic().retry_after(Some(duration));
    assert_eq!(basic_some.retry_after, Some(duration));

    let basic_duration = default_basic().retry_after(Some(duration));
    assert_eq!(basic_duration.retry_after, Some(duration));

    let basic_none = default_basic().retry_after(None);
    assert_eq!(basic_none.retry_after, None);
}

#[test]
fn test_fail_fast_const_method() {
    let basic = default_basic();
    assert!(!basic.fail_fast);

    let fail_fast_basic = basic.fail_fast();
    assert!(fail_fast_basic.fail_fast);
}

#[test]
fn test_chained_configuration() {
    let basic = default_basic()
        .max_concurrent_scenarios(Some(8))
        .retries(Some(2))
        .retry_after(Some(Duration::from_secs(2)))
        .fail_fast();

    assert_eq!(basic.max_concurrent_scenarios, Some(8));
    assert_eq!(basic.retries, Some(2));
    assert_eq!(basic.retry_after, Some(Duration::from_secs(2)));
    assert!(basic.fail_fast);
}

#[test]
fn default_choice_is_serial_only_with_a_serial_tag() {
    let f = feature_tagged(&["slow"]);
    assert_eq!(default_which_scenario(&f, None, &scenario_tagged(&[])), ScenarioType::Concurrent);
    assert_eq!(default_which_scenario(&f, None, &scenario_tagged(&["serial"])), ScenarioType::Serial);
    assert_eq!(
        default_which_scenario(&f, Some(&rule_tagged(&["serial"])), &scenario_tagged(&[])),
        ScenarioType::Serial
    );
    assert_eq!(
        default_which_scenario(&feature_tagged(&["serial"]), None, &scenario_tagged(&["x"])),
        ScenarioType::Serial
    );
    assert_eq!(default_which_scenario(&f, None, &scenario_tagged(&["@serial", "serials"])), ScenarioType::Concurrent);
}

#[test]
fn cli_options_win_over_the_configuration() {
    let basic = default_basic()
        .retries(Some(2))
        .retry_after(Some(Duration::from_secs(3)))
        .retry_filter(Some(TagOperation::Tag("flaky".to_string())))
        .max_concurrent_scenarios(Some(4));

    let (cli, fail_fast, concurrency) = basic.settings_for_run(Cli::default());
    assert_eq!(cli.retry, Some(2));
    assert_eq!(cli.retry_after, Some(Duration::from_secs(3)));
    assert!(matches!(cli.retry_tag_filter, Some(TagOperation::Tag(ref t)) if t == "flaky"));
    assert!(!fail_fast);
    assert_eq!(concurrency, Some(4));

    let mut given = Cli::default();
    given.retry = Some(7);
    given.concurrency = Some(1);
    given.retry_tag_filter = Some(TagOperation::Tag("cli".to_string()));
    let (cli, fail_fast, concurrency) = basic.fail_fast().settings_for_run(given);
    assert_eq!(cli.retry, Some(7));
    assert!(matches!(cli.retry_tag_filter, Some(TagOperation::Tag(ref t)) if t == "cli"));
    assert!(fail_fast);
    assert_eq!(concurrency, Some(1));
}

#[test]
fn test_module_re_exports() {
    let _cli = Cli::default();
    let _basic = default_basic();
    let _scenario_type = ScenarioType::Concurrent;
}

#[test]
fn test_runner_retry_configuration() {
    let cli = Cli { retry: Some(3), retry_after: Some(Duration::from_secs(1)), ..Default::default() };

    assert_eq!(cli.retry, Some(3));
    assert_eq!(cli.retry_after, Some(Duration::from_secs(1)));
}

#[test]
fn test_scenario_type_determination() {
    let which_scenario = |_: &Feature, _: Option<&Rule>, scenario: &Scenario| {
        if scenario.tags.contains(&"@serial".to_string()) {
            ScenarioType::Serial
        } else {
            ScenarioType::Concurrent
        }
    };
    let basic = default_basic().which_scenario(which_scenario);

    let feature = feature_tagged(&[]);
    let concurrent_scenario = scenario_tagged(&[]);
    let serial_scenario = scenario_tagged(&["@serial"]);

    assert_eq!((basic.which_scenario)(&feature, None, &concurrent_scenario), ScenarioType::Concurrent);
    assert_eq!((basic.which_scenario)(&feature, None, &serial_scenario), ScenarioType::Serial);
}
