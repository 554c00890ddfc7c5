use cucumber::event::Retries;
use cucumber::gherkin as model;
use cucumber::runner::basic::cli_and_types::{parse_duration_text, parse_retry_tag};
use cucumber::runner::basic::{Cli, RetryOptions};
use cucumber::tag::TagOperation;
use cucumber::time::Duration;
use gherkin::tagexpr::TagOperation as GherkinTagOperation;
use gherkin::GherkinEnv;

const SCENARIO_TAGS: &str = r"
Feature: only scenarios
  Scenario: no tags
    Given a step

  @retry
  Scenario: tag
    Given a step

  @retry(5)
  Scenario: tag with explicit value
    Given a step

  @retry.after(3s)
  Scenario: tag with explicit after
    Given a step

  @retry(5).after(15s)
  Scenario: tag with explicit value and after
    Given a step
";

const RULE_TAGS: &str = r#"
Feature: only scenarios
  Rule: no tags
    Scenario: no tags
      Given a step

    @retry
    Scenario: tag
      Given a step

    @retry(5)
    Scenario: tag with explicit value
      Given a step

    @retry.after(3s)
    Scenario: tag with explicit after
      Given a step

    @retry(5).after(15s)
    Scenario: tag with explicit value and after
      Given a step

  @retry(3).after(5s)
  Rule: retry tag
    Scenario: no tags
      Given a step

    @retry
    Scenario: tag
      Given a step

    @retry(5)
    Scenario: tag with explicit value
      Given a step

    @retry.after(3s)
    Scenario: tag with explicit after
      Given a step

    @retry(5).after(15s)
    Scenario: tag with explicit value and after
      Given a step
"#;

const FEATURE_TAGS: &str = r"
@retry(8)
Feature: only scenarios
  Scenario: no tags
    Given a step

  @retry
  Scenario: tag
    Given a step

  @retry(5)
  Scenario: tag with explicit value
    Given a step

  @retry.after(3s)
  Scenario: tag with explicit after
    Given a step

  @retry(5).after(15s)
  Scenario: tag with explicit value and after
    Given a step

  Rule: no tags
    Scenario: no tags
      Given a step

    @retry
    Scenario: tag
      Given a step

    @retry(5)
    Scenario: tag with explicit value
      Given a step

    @retry.after(3s)
    Scenario: tag with explicit after
      Given a step

    @retry(5).after(15s)
    Scenario: tag with explicit value and after
      Given a step

  @retry(3).after(5s)
  Rule: retry tag
    Scenario: no tags
      Given a step

    @retry
    Scenario: tag
      Given a step

    @retry(5)
    Scenario: tag with explicit value
      Given a step

    @retry.after(3s)
    Scenario: tag with explicit after
      Given a step

    @retry(5).after(15s)
    Scenario: tag with explicit value and after
      Given a step
";

fn position(p: gherkin::LineCol) -> model::LineCol {
    model::LineCol { line: p.line, col: p.col }
}

fn scenario(s: &gherkin::Scenario) -> model::Scenario {
    model::Scenario {
        keyword: s.keyword.clone(),
        name: s.name.clone(),
        steps: vec![],
        examples: None,
        tags: s.tags.clone(),
        position: position(s.position),
    }
}

fn parse(text: &str) -> model::Feature {
    let f = gherkin::Feature::parse(text, GherkinEnv::default()).expect("failed to parse feature");
    model::Feature {
        keyword: f.keyword.clone(),
        name: f.name.clone(),
        background: None,
        scenarios: f.scenarios.iter().map(scenario).collect(),
        rules: f
            .rules
            .iter()
            .map(|r| model::Rule {
                keyword: r.keyword.clone(),
                name: r.name.clone(),
                background: None,
                scenarios: r.scenarios.iter().map(scenario).collect(),
                tags: r.tags.clone(),
                position: position(r.position),
            })
            .collect(),
        tags: f.tags.clone(),
        position: position(f.position),
        path: None,
    }
}

fn conv(op: &GherkinTagOperation) -> TagOperation {
    match op {
        GherkinTagOperation::And(l, r) => TagOperation::And(Box::new(conv(l)), Box::new(conv(r))),
        GherkinTagOperation::Or(l, r) => TagOperation::Or(Box::new(conv(l)), Box::new(conv(r))),
        GherkinTagOperation::Not(t) => TagOperation::Not(Box::new(conv(t))),
        GherkinTagOperation::Tag(t) => TagOperation::Tag(t.clone()),
    }
}

fn tag_filter(text: &str) -> TagOperation {
    conv(&text.parse::<GherkinTagOperation>().unwrap())
}

fn parse_duration(text: &str) -> Duration {
    let d = humantime::parse_duration(text).unwrap();
    Duration::new(d.as_secs(), d.subsec_nanos())
}

fn cli(retry: Option<usize>, retry_after: Option<Duration>, retry_tag_filter: Option<TagOperation>) -> Cli {
    Cli { concurrency: None, fail_fast: false, retry, retry_after, retry_tag_filter }
}

fn expected(left: usize, after: Option<u64>) -> Option<RetryOptions> {
    Some(RetryOptions { retries: Retries { current: 0, left }, after: after.map(Duration::from_secs) })
}

/// Retry options of the scenarios directly in the feature, in order.
fn direct(f: &model::Feature, cli: &Cli) -> Vec<Option<RetryOptions>> {
    f.scenarios.iter().map(|s| RetryOptions::parse_from_tags(f, None, s, cli)).collect()
}

/// Retry options of the scenarios of rule `i`, in order.
fn in_rule(f: &model::Feature, i: usize, cli: &Cli) -> Vec<Option<RetryOptions>> {
    let r = &f.rules[i];
    r.scenarios.iter().map(|s| RetryOptions::parse_from_tags(f, Some(r), s, cli)).collect()
}

#[test]
fn basic_empty_cli() {
    let cli = cli(None, None, None);

    let f = parse(SCENARIO_TAGS);
    assert_eq!(
        direct(&f, &cli),
        vec![None, expected(1, None), expected(5, None), expected(1, Some(3)), expected(5, Some(15))]
    );

    let f = parse(RULE_TAGS);
    assert_eq!(
        in_rule(&f, 0, &cli),
        vec![None, expected(1, None), expected(5, None), expected(1, Some(3)), expected(5, Some(15))]
    );
    assert_eq!(
        in_rule(&f, 1, &cli),
        vec![expected(3, Some(5)), expected(1, None), expected(5, None), expected(1, Some(3)), expected(5, Some(15))]
    );

    let f = parse(FEATURE_TAGS);
    assert_eq!(
        direct(&f, &cli),
        vec![expected(8, None), expected(1, None), expected(5, None), expected(1, Some(3)), expected(5, Some(15))]
    );
    assert_eq!(
        in_rule(&f, 0, &cli),
        vec![expected(8, None), expected(1, None), expected(5, None), expected(1, Some(3)), expected(5, Some(15))]
    );
    assert_eq!(
        in_rule(&f, 1, &cli),
        vec![expected(3, Some(5)), expected(1, None), expected(5, None), expected(1, Some(3)), expected(5, Some(15))]
    );
}

#[test]
fn cli_retries() {
    let cli = cli(Some(7), None, None);
    let f = parse(SCENARIO_TAGS);
    assert_eq!(
        direct(&f, &cli),
        vec![expected(7, None), expected(7, None), expected(5, None), expected(7, Some(3)), expected(5, Some(15))]
    );
}

#[test]
fn cli_retry_after() {
    let cli = cli(Some(7), Some(parse_duration("5s")), None);
    let f = parse(SCENARIO_TAGS);
    assert_eq!(
        direct(&f, &cli),
        vec![expected(7, Some(5)), expected(7, Some(5)), expected(5, Some(5)), expected(7, Some(3)), expected(5, Some(15))]
    );
}

#[test]
fn cli_retry_filter() {
    let cli = cli(Some(7), None, Some(tag_filter("@retry")));
    let f = parse(SCENARIO_TAGS);
    assert_eq!(
        direct(&f, &cli),
        vec![None, expected(7, None), expected(5, None), expected(7, Some(3)), expected(5, Some(15))]
    );
}

#[test]
fn basic_cli_retry_after_and_filter() {
    let cli = cli(Some(7), Some(parse_duration("5s")), Some(tag_filter("@retry")));

    let f = parse(SCENARIO_TAGS);
    assert_eq!(
        direct(&f, &cli),
        vec![None, expected(7, Some(5)), expected(5, Some(5)), expected(7, Some(3)), expected(5, Some(15))]
    );

    let f = parse(RULE_TAGS);
    assert_eq!(
        in_rule(&f, 0, &cli),
        vec![None, expected(7, Some(5)), expected(5, Some(5)), expected(7, Some(3)), expected(5, Some(15))]
    );
    assert_eq!(
        in_rule(&f, 1, &cli),
        vec![expected(3, Some(5)), expected(7, Some(5)), expected(5, Some(5)), expected(7, Some(3)), expected(5, Some(15))]
    );

    let f = parse(FEATURE_TAGS);
    assert_eq!(
        direct(&f, &cli),
        vec![expected(8, Some(5)), expected(7, Some(5)), expected(5, Some(5)), expected(7, Some(3)), expected(5, Some(15))]
    );
    assert_eq!(
        in_rule(&f, 0, &cli),
        vec![expected(8, Some(5)), expected(7, Some(5)), expected(5, Some(5)), expected(7, Some(3)), expected(5, Some(15))]
    );
    assert_eq!(
        in_rule(&f, 1, &cli),
        vec![expected(3, Some(5)), expected(7, Some(5)), expected(5, Some(5)), expected(7, Some(3)), expected(5, Some(15))]
    );
}

#[test]
fn duration_texts_with_too_many_digits_are_refused() {
    assert_eq!(parse_duration_text("1min 30s"), Some(Duration::from_secs(90)));
    assert_eq!(parse_duration_text("12345678901s"), Some(Duration::from_secs(12345678901)));
    assert_eq!(parse_duration_text("123456789012s"), None);
    assert_eq!(parse_duration_text("18446744073709551615s 1000000000ns"), None);
    assert_eq!(parse_duration_text("soon"), None);
    assert_eq!(
        parse_retry_tag(&"@retry(2).after(18446744073709551615s 1000000000ns)".to_string()),
        Some((Some(2), None))
    );
    assert_eq!(
        parse_retry_tag(&"@retry(2).after(3s)".to_string()),
        Some((Some(2), Some(Duration::from_secs(3))))
    );
}
