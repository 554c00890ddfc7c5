use std::collections::HashSet;
use cucumber::runner::basic::ScenarioType::{Concurrent, Serial};
use cucumber::event::Retries;
use cucumber::gherkin::{Feature, LineCol, Rule, Scenario};
use cucumber::runner::basic::{Cli, RetryOptions, RetryOptionsWithDeadline, ScenarioType};
use cucumber::time::Duration;
use std::time::Instant;

fn position() -> LineCol {
    LineCol { line: 1, col: 1 }
}

fn create_test_feature(tags: Vec<String>) -> Feature {
    Feature {
        keyword: "Feature".to_string(),
        name: "Test Feature".to_string(),
        background: None,
        scenarios: vec![],
        rules: vec![],
        tags,
        position: position(),
        path: None,
    }
}

fn create_test_rule(tags: Vec<String>) -> Rule {
    Rule {
        keyword: "Rule".to_string(),
        name: "Test Rule".to_string(),
        background: None,
        scenarios: vec![],
        tags,
        position: position(),
    }
}

fn create_test_scenario(tags: Vec<String>) -> Scenario {
    Scenario {
        keyword: "Scenario".to_string(),
        name: "Test Scenario".to_string(),
        steps: vec![],
        examples: None,
        tags,
        position: position(),
    }
}

#[test]
fn test_cli_default() {
    let cli = Cli::default();
    assert_eq!(cli.concurrency, None);
    assert!(!cli.fail_fast);
    assert_eq!(cli.retry, None);
    assert_eq!(cli.retry_after, None);
    assert!(cli.retry_tag_filter.is_none());
}

#[test]
fn test_scenario_type() {
    assert_eq!(ScenarioType::Serial, ScenarioType::Serial);
    assert_ne!(ScenarioType::Serial, ScenarioType::Concurrent);

    let serial = ScenarioType::Serial;
    let copied = serial;
    assert_eq!(serial, copied);

    let mut set = HashSet::new();
    set.insert(ScenarioType::Serial);
    set.insert(ScenarioType::Concurrent);
    assert_eq!(set.len(), 2);
}

#[test]
fn test_retry_options_next_try() {
    let opts = RetryOptions { retries: Retries::initial(2), after: Some(Duration::from_secs(1)) };

    let next = opts.next_try().unwrap();
    assert_eq!(next.retries.left, 1);
    assert_eq!(next.after, Some(Duration::from_secs(1)));

    let next2 = next.next_try().unwrap();
    assert_eq!(next2.retries.left, 0);

    let last = next2.next_try();
    assert!(last.is_none());
}

#[test]
fn test_retry_options_equality() {
    let opts1 = RetryOptions { retries: Retries::initial(1), after: Some(Duration::from_secs(1)) };
    let opts2 = RetryOptions { retries: Retries::initial(1), after: Some(Duration::from_secs(1)) };
    assert_eq!(opts1, opts2);
    let opts3 = RetryOptions { retries: Retries::initial(2), after: Some(Duration::from_secs(1)) };
    assert_ne!(opts1, opts3);
}

#[test]
fn test_retry_options_parse_from_tags_scenario_tag() {
    let feature = create_test_feature(vec![]);
    let scenario = create_test_scenario(vec!["@retry(3)".to_string()]);
    let cli = Cli::default();

    let opts = RetryOptions::parse_from_tags(&feature, None, &scenario, &cli);
    assert!(opts.is_some());
    let opts = opts.unwrap();
    assert_eq!(opts.retries.left, 3);
    assert!(opts.after.is_none());
}

#[test]
fn test_retry_options_parse_from_tags_with_after() {
    let feature = create_test_feature(vec![]);
    let scenario = create_test_scenario(vec!["@retry(2).after(1s)".to_string()]);
    let cli = Cli::default();

    let opts = RetryOptions::parse_from_tags(&feature, None, &scenario, &cli);
    assert!(opts.is_some());
    let opts = opts.unwrap();
    assert_eq!(opts.retries.left, 2);
    assert_eq!(opts.after, Some(Duration::from_secs(1)));
}

#[test]
fn test_retry_options_parse_from_tags_rule_tag() {
    let feature = create_test_feature(vec![]);
    let rule = create_test_rule(vec!["@retry(4)".to_string()]);
    let scenario = create_test_scenario(vec![]);
    let cli = Cli::default();

    let opts = RetryOptions::parse_from_tags(&feature, Some(&rule), &scenario, &cli);
    assert!(opts.is_some());
    assert_eq!(opts.unwrap().retries.left, 4);
}

#[test]
fn test_retry_options_parse_from_tags_feature_tag() {
    let feature = create_test_feature(vec!["@retry(5)".to_string()]);
    let scenario = create_test_scenario(vec![]);
    let cli = Cli::default();

    let opts = RetryOptions::parse_from_tags(&feature, None, &scenario, &cli);
    assert!(opts.is_some());
    assert_eq!(opts.unwrap().retries.left, 5);
}

#[test]
fn test_retry_options_parse_from_tags_priority() {
    let feature = create_test_feature(vec!["@retry(1)".to_string()]);
    let rule = create_test_rule(vec!["@retry(2)".to_string()]);
    let scenario = create_test_scenario(vec!["@retry(3)".to_string()]);
    let cli = Cli::default();

    let opts = RetryOptions::parse_from_tags(&feature, Some(&rule), &scenario, &cli);
    assert!(opts.is_some());
    assert_eq!(opts.unwrap().retries.left, 3);
}

#[test]
fn test_retry_options_parse_from_cli() {
    let feature = create_test_feature(vec![]);
    let scenario = create_test_scenario(vec![]);
    let cli = Cli { retry: Some(2), retry_after: Some(Duration::from_millis(500)), ..Default::default() };

    let opts = RetryOptions::parse_from_tags(&feature, None, &scenario, &cli);
    assert!(opts.is_some());
    let opts = opts.unwrap();
    assert_eq!(opts.retries.left, 2);
    assert_eq!(opts.after, Some(Duration::from_millis(500)));
}

#[test]
fn test_retry_options_parse_cli_override_tags() {
    let feature = create_test_feature(vec![]);
    let scenario = create_test_scenario(vec!["@retry(1).after(2s)".to_string()]);
    let cli = Cli { retry: Some(3), retry_after: Some(Duration::from_secs(5)), ..Default::default() };

    let opts = RetryOptions::parse_from_tags(&feature, None, &scenario, &cli);
    assert!(opts.is_some());
    let opts = opts.unwrap();
    assert_eq!(opts.retries.left, 1);
    assert_eq!(opts.after, Some(Duration::from_secs(2)));
}

#[test]
fn test_retry_options_parse_with_tag_filter() {
    let feature = create_test_feature(vec![]);
    let scenario = create_test_scenario(vec!["@smoke".to_string()]);
    let cli = Cli { retry: Some(2), retry_tag_filter: None, ..Default::default() };

    let opts = RetryOptions::parse_from_tags(&feature, None, &scenario, &cli);
    assert!(opts.is_some());
    assert_eq!(opts.unwrap().retries.left, 2);
}

#[test]
fn test_retry_options_parse_tag_filter_no_match() {
    let feature = create_test_feature(vec![]);
    let scenario = create_test_scenario(vec!["@integration".to_string()]);
    let cli = Cli { retry: Some(2), retry_tag_filter: None, ..Default::default() };

    let opts = RetryOptions::parse_from_tags(&feature, None, &scenario, &cli);
    assert!(opts.is_some());
    assert_eq!(opts.unwrap().retries.left, 2);
}

#[test]
fn test_retry_options_parse_no_number() {
    let feature = create_test_feature(vec![]);
    let scenario = create_test_scenario(vec!["@retry".to_string()]);
    let cli = Cli::default();

    let opts = RetryOptions::parse_from_tags(&feature, None, &scenario, &cli);
    assert!(opts.is_some());
    assert_eq!(opts.unwrap().retries.left, 1);
}

#[test]
fn test_retry_options_with_deadline() {
    let opts = RetryOptions { retries: Retries::initial(1), after: Some(Duration::from_millis(100)) };

    let now = Instant::now();
    let with_deadline = opts.with_deadline(now);

    assert_eq!(with_deadline.retries, opts.retries);
    assert!(with_deadline.after.is_some());
    let (duration, instant) = with_deadline.after.unwrap();
    assert_eq!(duration, Duration::from_millis(100));
    assert_eq!(instant, Some(now));
}

#[test]
fn test_retry_options_without_deadline() {
    let opts = RetryOptions { retries: Retries::initial(1), after: Some(Duration::from_millis(100)) };

    let without_deadline = opts.without_deadline();

    assert_eq!(without_deadline.retries, opts.retries);
    assert!(without_deadline.after.is_some());
    let (duration, instant) = without_deadline.after.unwrap();
    assert_eq!(duration, Duration::from_millis(100));
    assert!(instant.is_none());
}

#[test]
fn test_retry_options_with_deadline_no_after() {
    let opts = RetryOptions { retries: Retries::initial(1), after: None };

    let now = Instant::now();
    let with_deadline = opts.with_deadline(now);

    assert_eq!(with_deadline.retries, opts.retries);
    assert!(with_deadline.after.is_none());
}

#[test]
fn test_retry_options_with_deadline_from_conversion() {
    let opts = RetryOptions { retries: Retries::initial(2), after: Some(Duration::from_secs(1)) };

    let with_deadline = opts.with_deadline(Instant::now());
    let converted: RetryOptions = with_deadline.into();

    assert_eq!(converted.retries, opts.retries);
    assert_eq!(converted.after, opts.after);
}

#[test]
fn test_scenario_type_enum() {
    assert_eq!(Serial, Serial);
    assert_ne!(Serial, Concurrent);
    match Concurrent {
        Concurrent => {}
        Serial => panic!("Should be Concurrent"),
    }
}

#[test]
fn test_retry_options_creation() {
    let opts = RetryOptions { retries: Retries::initial(3), after: Some(Duration::from_secs(1)) };
    assert_eq!(opts.retries.left, 3);
    assert_eq!(opts.after, Some(Duration::from_secs(1)));
}

#[test]
fn left_until_retry_is_ready_without_a_counting_delay() {
    let opts = RetryOptionsWithDeadline { retries: Retries::initial(1), after: None };
    assert!(opts.left_until_retry().is_none());
    let opts = RetryOptionsWithDeadline {
        retries: Retries::initial(1),
        after: Some((Duration::from_secs(1), None)),
    };
    assert!(opts.left_until_retry().is_none());
    let opts = RetryOptionsWithDeadline {
        retries: Retries::initial(1),
        after: Some((Duration::from_secs(3600), Some(Instant::now()))),
    };
    let left = opts.left_until_retry().unwrap();
    assert!(left <= Duration::from_secs(3600));
    assert!(left > Duration::from_secs(3500));
}

#[test]
fn left_until_retry_after_subtracts_elapsed_time() {
    let opts = RetryOptionsWithDeadline {
        retries: Retries::initial(1),
        after: Some((Duration::from_millis(1500), Some(Instant::now()))),
    };
    assert_eq!(opts.left_until_retry_after(Duration::from_millis(500)), Some(Duration::from_secs(1)));
    assert_eq!(opts.left_until_retry_after(Duration::from_millis(1500)), Some(Duration::from_secs(0)));
    assert_eq!(opts.left_until_retry_after(Duration::from_millis(1501)), None);
}

#[test]
fn test_cli_clone() {
    let cli = Cli {
        concurrency: Some(4),
        fail_fast: true,
        retry: Some(3),
        retry_after: Some(Duration::from_secs(2)),
        retry_tag_filter: None,
    };

    let cloned = cli.clone();
    assert_eq!(cloned.concurrency, Some(4));
    assert!(cloned.fail_fast);
    assert_eq!(cloned.retry, Some(3));
    assert_eq!(cloned.retry_after, Some(Duration::from_secs(2)));
    assert!(cloned.retry_tag_filter.is_none());
}

fn wait_until(start: Instant, millis: u64) {
    while start.elapsed() < std::time::Duration::from_millis(millis) {
        std::hint::spin_loop();
    }
}

#[test]
fn test_retry_options_with_deadline_left_until_retry() {
    let opts = RetryOptionsWithDeadline { retries: Retries::initial(1), after: None };
    assert!(opts.left_until_retry().is_none());

    let opts_no_instant = RetryOptionsWithDeadline {
        retries: Retries::initial(1),
        after: Some((Duration::from_secs(1), None)),
    };
    assert!(opts_no_instant.left_until_retry().is_none());

    let now = Instant::now();
    let opts_with_instant = RetryOptionsWithDeadline {
        retries: Retries::initial(1),
        after: Some((Duration::from_millis(100), Some(now))),
    };
    let left = opts_with_instant.left_until_retry();
    assert!(left.is_some());
    assert!(left.unwrap() <= Duration::from_millis(100));

    wait_until(now, 50);
    let left_after = opts_with_instant.left_until_retry();
    assert!(left_after.is_some());
    assert!(left_after.unwrap() < left.unwrap());

    wait_until(now, 110);
    let left_expired = opts_with_instant.left_until_retry();
    assert!(left_expired.is_none());
}
