use cucumber::runner::basic::queue::{FeatureEntry, ScenarioItem};
use cucumber::runner::basic::{ScenarioId, ScenarioType};

fn item(id: u64, rule: Option<usize>, scenario: usize) -> ScenarioItem {
    (ScenarioId(id), 0, rule, scenario, ScenarioType::Serial, None)
}

#[test]
fn empty_entry_has_nothing_to_run() {
    let mut e = FeatureEntry::new();
    assert!(e.is_empty());
    assert_eq!(e.total_scenarios(), 0);
    assert!(e.next_scenario().is_none());
    let d = FeatureEntry::default();
    assert!(d.is_empty());
}

#[test]
fn direct_scenarios_come_before_rule_scenarios() {
    let mut e = FeatureEntry::new();
    e.add_rule_scenario(7, item(1, Some(7), 10));
    e.add_scenario(item(2, None, 20));
    e.add_rule_scenario(3, item(3, Some(3), 30));
    e.add_rule_scenario(7, item(4, Some(7), 40));
    e.add_scenario(item(5, None, 50));
    assert_eq!(e.total_scenarios(), 5);
    assert_eq!(e.rules.len(), 2);

    let order: Vec<u64> = std::iter::from_fn(|| e.next_scenario()).map(|s| s.0 .0).collect();
    assert_eq!(order, vec![2, 5, 1, 4, 3]);
    assert!(e.is_empty());
    assert_eq!(e.total_scenarios(), 0);
}

#[test]
fn total_counts_every_queue() {
    let mut e = FeatureEntry::new();
    e.add_rule_scenario(1, item(1, Some(1), 1));
    e.add_rule_scenario(2, item(2, Some(2), 2));
    assert!(!e.is_empty());
    assert_eq!(e.total_scenarios(), 2);
    let first = e.next_scenario().unwrap();
    assert_eq!(first.2, Some(1));
    assert_eq!(e.total_scenarios(), 1);
    assert!(!e.is_empty());
}

fn concurrent(id: u64, rule: Option<usize>, scenario: usize) -> ScenarioItem {
    (ScenarioId(id), 0, rule, scenario, ScenarioType::Concurrent, None)
}

#[test]
fn serial_scenarios_are_handed_out_first() {
    let mut e = FeatureEntry::new();
    e.add_scenario(concurrent(1, None, 10));
    e.add_rule_scenario(7, concurrent(2, Some(7), 20));
    e.add_rule_scenario(7, item(3, Some(7), 30));
    e.add_scenario(item(4, None, 40));
    e.add_scenario(concurrent(5, None, 50));
    let order: Vec<u64> = std::iter::from_fn(|| e.next_scenario()).map(|s| s.0 .0).collect();
    assert_eq!(order, vec![4, 3, 1, 5, 2]);
    assert!(e.is_empty());
}
