use cucumber::step::{AmbiguousMatchError, HashableRegex, Location};
use regex::Regex;

fn create_test_matches() -> Vec<(HashableRegex, Option<Location>)> {
    vec![
        (
            HashableRegex::from(Regex::new(r"I have (\d+) cucumbers").unwrap()),
            Some(Location::new("src/steps.rs", 10, 5)),
        ),
        (
            HashableRegex::from(Regex::new(r"I have \d+ cucumbers").unwrap()),
            Some(Location::new("src/more_steps.rs", 20, 10)),
        ),
        (HashableRegex::from(Regex::new(r"I have .+ cucumbers").unwrap()), None),
    ]
}

#[test]
fn ambiguous_match_error_new_creates_error() {
    let matches = create_test_matches();
    let error = AmbiguousMatchError::new(matches.clone());
    assert_eq!(error.possible_matches.len(), matches.len());
    assert_eq!(error.possible_matches, matches);
}

#[test]
fn ambiguous_match_error_possible_matches_returns_reference() {
    let matches = create_test_matches();
    let error = AmbiguousMatchError::new(matches.clone());
    assert_eq!(error.possible_matches(), &matches);
}

#[test]
fn ambiguous_match_error_match_count_returns_correct_count() {
    let matches = create_test_matches();
    let error = AmbiguousMatchError::new(matches);
    assert_eq!(error.match_count(), 3);
}

#[test]
fn ambiguous_match_error_sorted_matches_returns_sorted_copy() {
    let matches = create_test_matches();
    let error = AmbiguousMatchError::new(matches);

    let sorted = error.sorted_matches();
    assert_eq!(sorted.len(), 3);

    let patterns: Vec<&str> = sorted.iter().map(|(r, _)| r.as_str()).collect();
    assert!(patterns[0] < patterns[1]);
    assert!(patterns[1] < patterns[2]);
}

#[test]
fn ambiguous_match_error_display_works() {
    let matches = vec![
        (
            HashableRegex::from(Regex::new(r"pattern1").unwrap()),
            Some(Location::new("src/test.rs", 10, 5)),
        ),
        (HashableRegex::from(Regex::new(r"pattern2").unwrap()), None),
    ];

    let error = AmbiguousMatchError::new(matches);
    let display_output = error.to_string();

    assert!(display_output.contains("Possible matches:"));
    assert!(display_output.contains("pattern1"));
    assert!(display_output.contains("pattern2"));
    assert!(display_output.contains("src/test.rs:10:5"));
}

#[test]
fn ambiguous_match_error_display_without_location() {
    let matches = vec![(HashableRegex::from(Regex::new(r"pattern").unwrap()), None)];

    let error = AmbiguousMatchError::new(matches);
    let display_output = error.to_string();

    assert!(display_output.contains("Possible matches:"));
    assert!(display_output.contains("pattern"));
    assert!(!display_output.contains(" --> "));
}

#[test]
fn ambiguous_match_error_clone_works() {
    let matches = create_test_matches();
    let error = AmbiguousMatchError::new(matches.clone());
    let cloned = error.clone();

    assert_eq!(cloned.possible_matches, matches);
    assert_eq!(cloned.match_count(), error.match_count());
}

#[test]
fn ambiguous_match_error_debug_works() {
    let matches = create_test_matches();
    let error = AmbiguousMatchError::new(matches);
    let debug_output = format!("{:?}", error);

    assert!(debug_output.contains("AmbiguousMatchError"));
    assert!(debug_output.contains("possible_matches"));
}

#[test]
fn ambiguous_match_error_empty_matches() {
    let error = AmbiguousMatchError::new(vec![]);
    assert_eq!(error.match_count(), 0);
    assert!(error.sorted_matches().is_empty());
}

#[test]
fn ambiguous_match_error_display_is_exact() {
    let matches = vec![
        (HashableRegex::from(Regex::new(r"b").unwrap()), Some(Location::new("x/y.rs", 3, 4))),
        (HashableRegex::from(Regex::new(r"a").unwrap()), None),
    ];
    let error = AmbiguousMatchError::new(matches);
    assert_eq!(error.to_string(), "Possible matches:\nb --> x/y.rs:3:4\na");
}

#[test]
fn ambiguous_match_error_sorts_equal_patterns_by_location() {
    let matches = vec![
        (HashableRegex::from(Regex::new(r"p").unwrap()), Some(Location::new("b.rs", 1, 1))),
        (HashableRegex::from(Regex::new(r"p").unwrap()), None),
        (HashableRegex::from(Regex::new(r"p").unwrap()), Some(Location::new("a.rs", 9, 9))),
    ];
    let sorted = AmbiguousMatchError::new(matches).sorted_matches();
    assert_eq!(sorted[0].1, None);
    assert_eq!(sorted[1].1, Some(Location::new("a.rs", 9, 9)));
    assert_eq!(sorted[2].1, Some(Location::new("b.rs", 1, 1)));
}

#[test]
fn ambiguous_match_error_patterns_returns_regex_patterns() {
    let matches = create_test_matches();
    let error = AmbiguousMatchError::new(matches);

    let patterns: Vec<&str> = error.patterns();
    assert_eq!(patterns.len(), 3);
    assert!(patterns.contains(&r"I have (\d+) cucumbers"));
    assert!(patterns.contains(&r"I have \d+ cucumbers"));
    assert!(patterns.contains(&r"I have .+ cucumbers"));
}

#[test]
fn ambiguous_match_error_locations_returns_locations() {
    let matches = create_test_matches();
    let error = AmbiguousMatchError::new(matches);

    let locations: Vec<Option<&Location>> = error.locations();
    assert_eq!(locations.len(), 3);

    // First two should have locations, third should be None
    assert!(locations[0].is_some());
    assert!(locations[1].is_some());
    assert!(locations[2].is_none());

    if let Some(loc) = locations[0] {
        assert_eq!(loc.path(), "src/steps.rs");
        assert_eq!(loc.line(), 10);
    }

    if let Some(loc) = locations[1] {
        assert_eq!(loc.path(), "src/more_steps.rs");
        assert_eq!(loc.line(), 20);
    }
}

#[test]
fn ambiguous_match_error_patterns_keep_their_order() {
    let error = AmbiguousMatchError::new(create_test_matches());
    assert_eq!(
        error.patterns(),
        vec![r"I have (\d+) cucumbers", r"I have \d+ cucumbers", r"I have .+ cucumbers"]
    );
    assert_eq!(error.locations()[1], Some(&Location::new("src/more_steps.rs", 20, 10)));
}
