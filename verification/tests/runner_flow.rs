use cucumber::event::{Retries, ScenarioFinished, StepError};
use cucumber::examples::ExampleValues;
use cucumber::runner::basic::execution_engine::{
    scenario_completion, ExecutionState, LoopAction, RunEvent, ScenarioLifecycle,
};
use cucumber::runner::basic::executor::{StepAction, StepResult, StepsOutcome, StepsRun};
use cucumber::runner::basic::RetryOptions;
use cucumber::runner::flow::{
    rule_outcome, scenario_step_text, step_outcome, ScenarioAction, ScenarioRun, StepCall, TestOutcome, TEST_SKIPPED,
};
use cucumber::runner::stats::{FailureKind, FeatureEvent, RuleEvent, ScenarioEvent, Stats, StatsCollector, StepEvent};
use cucumber::time::Duration;

#[test]
fn scenario_run_passes_after_all_steps() {
    let mut run = ScenarioRun::new(1, 1);
    assert_eq!(run.next_action(), ScenarioAction::RunStep { background: true, index: 0 });
    let (e, end) = run.record(TestOutcome::Success);
    assert_eq!(e, ScenarioEvent::Background(StepEvent::Passed));
    assert_eq!(end, None);
    assert_eq!(run.next_action(), ScenarioAction::RunStep { background: false, index: 0 });
    let (e, end) = run.record(TestOutcome::Success);
    assert_eq!(e, ScenarioEvent::Step(StepEvent::Passed));
    assert_eq!(end, None);
    assert_eq!(run.next_action(), ScenarioAction::Pass);
    assert_eq!(run.pass(), ScenarioEvent::Passed);
    assert_eq!(run.next_action(), ScenarioAction::Done);
}

#[test]
fn scenario_run_stops_at_first_unsuccessful_step() {
    let mut run = ScenarioRun::new(0, 3);
    let _ = run.record(TestOutcome::Success);
    let (e, end) = run.record(TestOutcome::Failure(FailureKind::TimedOut));
    assert_eq!(e, ScenarioEvent::Step(StepEvent::Failed(FailureKind::TimedOut)));
    assert_eq!(end, Some(ScenarioEvent::Failed(FailureKind::TimedOut)));
    assert_eq!(run.next_action(), ScenarioAction::Done);

    let mut run = ScenarioRun::new(2, 0);
    let (e, end) = run.record(TestOutcome::Unimplemented);
    assert_eq!(e, ScenarioEvent::Background(StepEvent::Unimplemented));
    assert_eq!(end, Some(ScenarioEvent::Skipped));
}

#[test]
fn scenario_without_steps_passes_at_once() {
    let run = ScenarioRun::new(0, 0);
    assert_eq!(run.next_action(), ScenarioAction::Pass);
}

#[test]
fn rule_outcome_folds_scenario_events() {
    assert_eq!(rule_outcome(&vec![]), RuleEvent::Skipped);
    assert_eq!(rule_outcome(&vec![ScenarioEvent::Starting, ScenarioEvent::Passed]), RuleEvent::Passed);
    assert_eq!(rule_outcome(&vec![ScenarioEvent::Passed, ScenarioEvent::Skipped]), RuleEvent::Skipped);
    assert_eq!(rule_outcome(&vec![ScenarioEvent::Skipped, ScenarioEvent::Passed]), RuleEvent::Passed);
    assert_eq!(
        rule_outcome(&vec![
            ScenarioEvent::Failed(FailureKind::Panic),
            ScenarioEvent::Passed,
            ScenarioEvent::Failed(FailureKind::TimedOut),
            ScenarioEvent::Skipped,
        ]),
        RuleEvent::Failed(FailureKind::TimedOut)
    );
}

#[test]
fn scenario_step_text_inserts_example_values() {
    let example = ExampleValues::new(&vec!["n".to_string()], &vec!["5".to_string()]);
    assert_eq!(scenario_step_text(&example, &"eat <n> and <m>".to_string()), "eat 5 and <m>");
    assert_eq!(scenario_step_text(&ExampleValues::empty(), &"eat <n>".to_string()), "eat <n>");
}

#[test]
fn stats_collector_counts_events() {
    let mut c = StatsCollector::new();
    c.handle_feature_event(&FeatureEvent::Starting);
    c.handle_feature_event(&FeatureEvent::Scenario(ScenarioEvent::Starting));
    c.handle_feature_event(&FeatureEvent::Scenario(ScenarioEvent::Step(StepEvent::Starting)));
    c.handle_feature_event(&FeatureEvent::Scenario(ScenarioEvent::Step(StepEvent::Passed)));
    c.handle_feature_event(&FeatureEvent::Scenario(ScenarioEvent::Passed));
    c.handle_feature_event(&FeatureEvent::Rule(RuleEvent::Starting));
    c.handle_feature_event(&FeatureEvent::Rule(RuleEvent::Scenario(ScenarioEvent::Failed(FailureKind::Panic))));
    c.handle_feature_event(&FeatureEvent::Rule(RuleEvent::Failed(FailureKind::Panic)));
    c.handle_feature_event(&FeatureEvent::Finished);
    let r = c.collect();
    assert_eq!(r.features, Stats { total: 1, skipped: 0, passed: 0, failed: 0, timed_out: 0 });
    assert_eq!(r.rules, Stats { total: 1, skipped: 0, passed: 0, failed: 1, timed_out: 0 });
    assert_eq!(r.scenarios, Stats { total: 1, skipped: 0, passed: 1, failed: 1, timed_out: 0 });
    assert_eq!(r.steps, Stats { total: 2, skipped: 0, passed: 1, failed: 0, timed_out: 0 });
    assert!(r.failed());
}

#[test]
fn stats_failed_means_failure_or_timeout() {
    let mut s = Stats::default();
    assert!(!s.failed());
    s.timed_out = 1;
    assert!(s.failed());
}

#[test]
fn steps_run_skips_after_a_failure() {
    let mut run = StepsRun::new(1, 1, 2);
    assert_eq!(run.next_action(), StepAction::Run { background: true, index: 0 });
    run.record(StepResult::Passed);
    assert_eq!(run.next_action(), StepAction::Run { background: true, index: 1 });
    run.record(StepResult::Failed);
    assert_eq!(run.next_action(), StepAction::Skip { background: false, index: 2 });
    run.record(StepResult::Skipped);
    assert_eq!(run.next_action(), StepAction::Skip { background: false, index: 3 });
    run.record(StepResult::Skipped);
    assert_eq!(run.next_action(), StepAction::Done);
    assert_eq!(run.outcome(), StepsOutcome::Failed);
}

#[test]
fn steps_run_outcomes() {
    let mut run = StepsRun::new(0, 0, 2);
    run.record(StepResult::Skipped);
    assert_eq!(run.next_action(), StepAction::Run { background: false, index: 1 });
    run.record(StepResult::Passed);
    assert_eq!(run.outcome(), StepsOutcome::Skipped);
    assert_eq!(StepsRun::new(0, 0, 0).outcome(), StepsOutcome::Passed);
}

#[test]
fn execution_state_tracks_room() {
    let mut st = ExecutionState::new(Some(2));
    assert_eq!(st.request(), Some(2));
    assert_eq!(st.after_get(0, false, Some(Duration::from_secs(1))), LoopAction::Wait(Some(Duration::from_secs(1))));
    st.started(2);
    assert_eq!(st.request(), Some(0));
    assert_eq!(st.after_get(0, true, None), LoopAction::Run);
    st.scenario_done();
    assert_eq!(st.request(), Some(1));
    st.scenario_reported(true, true, true);
    assert_eq!(st.request(), Some(1));
    st.scenario_reported(true, true, false);
    assert_eq!(st.request(), Some(0));
    st.scenario_done();
    assert_eq!(st.after_get(0, true, None), LoopAction::Stop);
    assert_eq!(ExecutionState::new(None).request(), None);
}

#[test]
fn scenario_completion_retries_only_failures() {
    let retry = RetryOptions { retries: Retries { current: 0, left: 1 }, after: None };
    let (failed, next) = scenario_completion(Some(&ScenarioFinished::StepPassed), false, Some(retry));
    assert!(!failed);
    assert!(next.is_none());
    let (failed, next) = scenario_completion(Some(&ScenarioFinished::StepPassed), true, Some(retry));
    assert!(failed);
    assert_eq!(next, Some(RetryOptions { retries: Retries { current: 1, left: 0 }, after: None }));
    let failure = ScenarioFinished::StepFailed(None, None, StepError::NotFound);
    let (failed, next) = scenario_completion(Some(&failure), false, Some(RetryOptions { retries: Retries { current: 1, left: 0 }, after: None }));
    assert!(failed);
    assert!(next.is_none());
    let (failed, next) = scenario_completion(None, false, None);
    assert!(failed);
    assert!(next.is_none());
    let (failed, _) = scenario_completion(Some(&ScenarioFinished::StepSkipped), false, None);
    assert!(!failed);
}

#[test]
fn step_outcome_follows_how_the_call_ended() {
    assert_eq!(step_outcome(&StepCall::Returned), TestOutcome::Success);
    assert_eq!(step_outcome(&StepCall::TimedOut), TestOutcome::Failure(FailureKind::TimedOut));
    assert_eq!(step_outcome(&StepCall::Panicked(TEST_SKIPPED.to_string())), TestOutcome::Skipped);
    assert_eq!(step_outcome(&StepCall::Panicked("boom".to_string())), TestOutcome::Failure(FailureKind::Panic));
    assert_eq!(
        step_outcome(&StepCall::Panicked("Cucumber: test skipped!".to_string())),
        TestOutcome::Failure(FailureKind::Panic)
    );
}

#[test]
fn lifecycle_of_a_passing_run() {
    let mut run = ScenarioLifecycle::new();
    assert_eq!(run.world_created(true), vec![RunEvent::Started]);
    assert!(run.before_hook_done(false).is_empty());
    run.steps_done(&ScenarioFinished::StepPassed);
    assert_eq!(run.after_hook_done(false), vec![RunEvent::Finished]);
    let opts = RetryOptions { retries: Retries::initial(1), after: None };
    assert_eq!(run.outcome(Some(opts)), (false, None));
}

#[test]
fn lifecycle_of_a_run_without_world_is_retried() {
    let mut run = ScenarioLifecycle::new();
    assert_eq!(run.world_created(false), vec![RunEvent::WorldCreationFailed, RunEvent::Finished]);
    let opts = RetryOptions { retries: Retries::initial(1), after: None };
    let (failed, next) = run.outcome(Some(opts));
    assert!(failed);
    assert_eq!(next.unwrap().retries, Retries { current: 1, left: 0 });
}

#[test]
fn lifecycle_skips_after_hook_when_before_hook_fails() {
    let mut run = ScenarioLifecycle::new();
    run.world_created(true);
    assert_eq!(run.before_hook_done(true), vec![RunEvent::Finished]);
    assert_eq!(run.outcome(None), (true, None));
}

#[test]
fn lifecycle_counts_skipped_steps_and_after_hook_failures() {
    let mut run = ScenarioLifecycle::new();
    run.world_created(true);
    run.before_hook_done(false);
    run.steps_done(&ScenarioFinished::StepSkipped);
    assert_eq!(run.after_hook_done(false), vec![RunEvent::Finished]);
    assert_eq!(run.outcome(None), (false, None));

    let mut run = ScenarioLifecycle::new();
    run.world_created(true);
    run.before_hook_done(false);
    run.steps_done(&ScenarioFinished::StepSkipped);
    run.after_hook_done(true);
    assert_eq!(run.outcome(None), (true, None));
}
