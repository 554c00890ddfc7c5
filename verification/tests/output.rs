use cucumber::examples::ExampleValues;
use cucumber::gherkin::LineCol;
use cucumber::output::basic::{comment_layout, wrap_with_comment, Color, Piece, StepReport};
use cucumber::output::{BasicOutput, DebugOutput};
use cucumber::runner::stats::Stats;

fn texts(ps: &[Piece]) -> Vec<String> {
    ps.iter()
        .map(|p| match p {
            Piece::Colored { text, .. } => format!("C:{text}"),
            Piece::Plain { text, .. } => format!("P:{text}"),
            Piece::Commented { text, comment, .. } => format!("M:{text}|{comment}"),
            Piece::DeleteLastLine => "D".to_string(),
        })
        .collect()
}

#[test]
fn file_line_col_comment() {
    let out = BasicOutput::new();
    let pos = LineCol { line: 3, col: 5 };
    assert_eq!(out.file_line_col(Some("f/x.feature"), pos), "f/x.feature:3:5\u{a0}");
    assert_eq!(out.file_line_col(None, pos), "<input>:3:5\u{a0}");
}

#[test]
fn started_step_is_replaced_by_its_outcome() {
    let mut out = BasicOutput::new();
    let ps = out.handle_step("Given a", "c", false, false, &StepReport::Starting, 80);
    assert_eq!(texts(&ps), vec!["M:Given a|c"]);
    let ps = out.handle_step("Given a", "c", false, false, &StepReport::Passed, 80);
    assert_eq!(texts(&ps), vec!["D", "M:\u{2714} Given a|c"]);
    let ps = out.handle_step("Given b", "c", true, true, &StepReport::Unimplemented, 80);
    assert_eq!(
        texts(&ps),
        vec!["M:- \u{26d3}\u{fe0f} Given b|c", "C:     \u{26a1} ", "P:Not yet implemented (skipped)"]
    );
    let ps = out.handle_step("Then c", "c", false, false, &StepReport::TimedOut, 10);
    assert_eq!(texts(&ps), vec!["M:\u{2718} Then c|c", "M:[!] Step timed out|"]);
}

#[test]
fn panicked_step_shows_its_details() {
    let mut out = BasicOutput::new();
    let report = StepReport::Panicked {
        location: "s.rs:1:2".to_string(),
        payload: "boom".to_string(),
        out: "printed".to_string(),
        err: String::new(),
    };
    let ps = out.handle_step("When x", "c", false, false, &report, 30);
    let t = texts(&ps);
    assert_eq!(t.len(), 6);
    assert_eq!(t[1], "M:[!] Step failed: |s.rs:1:2");
    assert_eq!(t[2], "C:  boom");
    assert!(t[3].starts_with("C:\u{2014}\u{2014}\u{2014}\u{2014} Captured stdout: "));
    assert_eq!(t[4], "C:  printed");
    assert_eq!(t[5], format!("C:{}", "\u{2014}".repeat(29)));
}

#[test]
fn counters_and_headings() {
    let out = BasicOutput::new();
    let s = Stats { total: 5, skipped: 1, passed: 3, failed: 1, timed_out: 0 };
    assert_eq!(
        texts(&out.counter_pieces("steps", &s)),
        vec!["C:5 steps (", "C:1 failed", "C:, ", "C:1 skipped", "C:, ", "C:3 passed", "C:)"]
    );
    let s = Stats { total: 2, skipped: 0, passed: 2, failed: 0, timed_out: 0 };
    assert_eq!(texts(&out.counter_pieces("rules", &s)), vec!["C:2 rules (", "C:2 passed", "C:)"]);
    assert_eq!(texts(&out.rule_started("Rule", "r", "c")), vec!["M:Rule: r|c"]);
    let ex = ExampleValues::new(&vec!["a".to_string()], &vec!["1".to_string()]);
    assert_eq!(texts(&out.scenario_started("Scenario", "s", &ex, "c", false)), vec!["M:Scenario: s\n => <a> = 1|c"]);
    assert_eq!(
        texts(&out.scenario_started("Scenario", "s", &ExampleValues::empty(), "c", true)),
        vec!["M:Scenario: s |c"]
    );
    assert_eq!(texts(&out.start_pieces()), vec!["C:[Cucumber v0.21.1]"]);
}

#[test]
fn feature_heading_waits_for_its_first_scenario() {
    let mut out = BasicOutput::new();
    out.feature_started("Feature", "f", "c");
    assert!(out.feature_finished().is_empty());
    assert_eq!(texts(&out.feature_scenario()), vec!["M:Feature: f|c", "P:"]);
    assert!(out.feature_scenario().is_empty());
    assert_eq!(texts(&out.feature_finished()), vec!["P:"]);
}

#[test]
fn comment_layout_pads_to_the_margin() {
    let lines = vec![" ab ".to_string()];
    assert_eq!(comment_layout(&lines, "cc", "> ", 10), "> ab   ");
    let lines = vec!["x".to_string(), "yyyyyyyyyy".to_string()];
    assert_eq!(comment_layout(&lines, "cc", "", 10), "x\nyyyyyyyyyy\n       ");
    assert_eq!(wrap_with_comment("a b", "c", "", 20), Some(format!("a b{}", " ".repeat(15))));
}

#[test]
fn step_extras_tables_and_docstrings() {
    let out = BasicOutput::new();
    let rows = vec![vec!["n".to_string(), "name".to_string()], vec!["10".to_string(), "é".to_string()]];
    let numeric = vec![vec![false, false], vec![true, false]];
    let doc = "one\ntwo".to_string();
    let ps = out.step_extras(Some(&rows), &numeric, Some(&doc));
    assert_eq!(
        texts(&ps),
        vec![
            "P:      ", "C:|", "P: n  ", "C:|", "P: name ", "C:|", "P:",
            "P:      ", "C:|", "P: 10 ", "C:|", "P: é    ", "C:|", "P:",
            "C:      \"\"\"", "P:      one\n      two", "C:      \"\"\"",
        ]
    );
}

#[test]
fn debug_output_lines() {
    let d = DebugOutput;
    assert_eq!(d.feature_line("F", "a/b"), "visit_feature F a/b");
    assert_eq!(d.item_line("rule", "R"), "visit_rule R");
    let _ = Color::White;
}
