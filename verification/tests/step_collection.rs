use cucumber::event::{Step, StepError};
use cucumber::gherkin::{LineCol, Step as GherkinStep, StepType};
use cucumber::runner::basic::executor::{prepare_step, ran_step_event};
use cucumber::step::{Collection, Context, Location};
use cucumber::world::WorldInit;
use regex::Regex;

struct TestWorld;

type StepFn = fn(&mut TestWorld, Context) -> usize;

fn test_step(_world: &mut TestWorld, _ctx: Context) -> usize {
    1
}

fn other_step(_world: &mut TestWorld, _ctx: Context) -> usize {
    2
}

fn step_of(ty: StepType, value: &str) -> GherkinStep {
    GherkinStep {
        keyword: "Given".to_string(),
        ty,
        value: value.to_string(),
        docstring: None,
        table: None,
        position: LineCol { line: 1, col: 1 },
    }
}

#[test]
fn collection_creation_and_step_addition() {
    let collection: Collection<StepFn> = Collection::new();
    assert!(collection.given.is_empty());

    let regex = Regex::new(r"I have (\d+) cucumbers").unwrap();
    let collection = collection.given(None, regex, test_step as StepFn);
    assert_eq!(collection.given.len(), 1);
}

#[test]
fn collection_find_functionality() {
    let regex = Regex::new(r"I have (\d+) cucumbers").unwrap();
    let collection = Collection::new().given(None, regex, test_step as StepFn);

    let step = step_of(StepType::Given, "I have 5 cucumbers");

    let result = collection.find(&step).unwrap();
    assert!(result.is_some());

    let (_, _, _, context) = result.unwrap();
    assert_eq!(context.matches.len(), 2);
    assert_eq!(context.matches[1].1, "5");
}

#[test]
fn collection_clone_and_default() {
    let regex = Regex::new(r"test").unwrap();
    let collection = Collection::new().given(None, regex, test_step as StepFn);
    let cloned = collection.clone();
    assert_eq!(cloned.given.len(), 1);

    let default_collection: Collection<StepFn> = Collection::default();
    assert!(default_collection.given.is_empty());
}

#[test]
fn find_returns_none_when_nothing_matches() {
    let collection = Collection::new()
        .given(None, Regex::new(r"^a$").unwrap(), test_step as StepFn)
        .when(None, Regex::new(r"^b$").unwrap(), test_step as StepFn);
    assert!(collection.find(&step_of(StepType::Given, "b")).unwrap().is_none());
    assert!(collection.find(&step_of(StepType::Then, "a")).unwrap().is_none());
}

#[test]
fn find_looks_only_at_steps_of_the_same_kind() {
    let collection = Collection::new()
        .given(None, Regex::new(r"x").unwrap(), test_step as StepFn)
        .then_step(None, Regex::new(r"x").unwrap(), other_step as StepFn);
    let (f, _, _, _) = collection.find(&step_of(StepType::Then, "x")).unwrap().unwrap();
    assert_eq!(f(&mut TestWorld, Context::new(step_of(StepType::Then, "x"), vec![])), 2);
}

#[test]
fn find_reports_every_ambiguous_match_sorted() {
    let loc = Location::new("steps.rs", 3, 1);
    let collection = Collection::new()
        .given(Some(loc), Regex::new(r"cucumbers").unwrap(), test_step as StepFn)
        .given(None, Regex::new(r"\d+").unwrap(), other_step as StepFn)
        .given(None, Regex::new(r"^nothing$").unwrap(), other_step as StepFn);
    let err = collection.find(&step_of(StepType::Given, "I have 5 cucumbers")).unwrap_err();
    assert_eq!(err.match_count(), 2);
    assert_eq!(err.patterns(), vec![r"\d+", "cucumbers"]);
    assert_eq!(err.possible_matches[1].1, Some(loc));
}

#[test]
fn find_names_groups_and_slices_multibyte_text() {
    let collection = Collection::new().when(
        Some(Location::new("s.rs", 1, 2)),
        Regex::new(r"(?<who>\w+) eats (\d+)?(x)?").unwrap(),
        test_step as StepFn,
    );
    let step = step_of(StepType::When, "Zoë eats x");
    let (_, locs, loc, ctx) = collection.find(&step).unwrap().unwrap();
    assert_eq!(loc, Some(Location::new("s.rs", 1, 2)));
    assert_eq!(locs.len(), 4);
    assert_eq!(
        ctx.matches,
        vec![
            (None, "Zoë eats x".to_string()),
            (Some("who".to_string()), "Zoë".to_string()),
            (None, String::new()),
            (None, "x".to_string()),
        ]
    );
    assert_eq!(ctx.get_named_capture("who"), Some("Zoë"));
    assert_eq!(ctx.step.value, "Zoë eats x");
}

#[test]
fn registering_the_same_pattern_and_location_replaces_the_function() {
    let collection = Collection::new()
        .given(None, Regex::new(r"^go$").unwrap(), test_step as StepFn)
        .given(None, Regex::new(r"^go$").unwrap(), other_step as StepFn)
        .given(Some(Location::new("a.rs", 1, 1)), Regex::new(r"^stay$").unwrap(), test_step as StepFn);
    assert_eq!(collection.given.len(), 2);
    let (f, _, _, _) = collection.find(&step_of(StepType::Given, "go")).unwrap().unwrap();
    assert_eq!(f(&mut TestWorld, Context::new(step_of(StepType::Given, "go"), vec![])), 2);
}

#[test]
fn prepare_step_reports_missing_and_ambiguous_functions() {

    let collection = Collection::new()
        .given(None, Regex::new(r"a").unwrap(), test_step as StepFn)
        .given(None, Regex::new(r"b").unwrap(), other_step as StepFn);

    match prepare_step::<StepFn, TestWorld>(&collection, &step_of(StepType::Given, "zzz")) {
        Err(Step::Failed { captures: None, location: None, world: None, error: StepError::NotFound }) => {}
        _ => panic!("expected NotFound"),
    }
    match prepare_step::<StepFn, TestWorld>(&collection, &step_of(StepType::Given, "ab")) {
        Err(Step::Failed { error: StepError::AmbiguousMatch(e), .. }) => assert_eq!(e.patterns(), vec!["a", "b"]),
        _ => panic!("expected AmbiguousMatch"),
    }
    match prepare_step::<StepFn, TestWorld>(&collection, &step_of(StepType::Given, "bb")) {
        Ok((f, _, None, ctx)) => {
            assert_eq!(ctx.matches, vec![(None, "b".to_string())]);
            assert_eq!(f(&mut TestWorld, ctx), 2);
        }
        _ => panic!("expected a function"),
    }
}

#[test]
fn ran_step_event_reports_pass_or_panic() {

    let locs = Regex::new("(x)").unwrap().capture_locations();
    let loc = Some(Location::new("f.rs", 2, 3));
    match ran_step_event::<TestWorld>(Ok(()), locs.clone(), loc) {
        Step::Passed { captures, location } => {
            assert_eq!(captures.len(), 2);
            assert_eq!(location, loc);
        }
        _ => panic!("expected Passed"),
    }
    match ran_step_event::<TestWorld>(Err("boom".to_string()), locs, None) {
        Step::Failed { captures: Some(_), location: None, world: None, error: StepError::Panic(m) } => assert_eq!(m, "boom"),
        _ => panic!("expected Failed"),
    }
}

struct Registered;

impl WorldInit<StepFn> for Registered {
    fn cucumber_given() -> Vec<(Option<Location>, Regex, StepFn)> {
        vec![
            (Some(Location::new("a.rs", 1, 1)), Regex::new("^one$").unwrap(), test_step as StepFn),
            (Some(Location::new("a.rs", 1, 1)), Regex::new("^one$").unwrap(), other_step as StepFn),
            (None, Regex::new("^two$").unwrap(), test_step as StepFn),
        ]
    }

    fn cucumber_when() -> Vec<(Option<Location>, Regex, StepFn)> {
        vec![]
    }

    fn cucumber_then() -> Vec<(Option<Location>, Regex, StepFn)> {
        vec![(None, Regex::new("^three$").unwrap(), other_step as StepFn)]
    }
}

#[test]
fn world_collection_gathers_every_registration() {
    let c = Registered::collection();
    assert_eq!(c.given.len(), 2);
    assert!(c.when.is_empty());
    assert_eq!(c.then_steps.len(), 1);
    let (f, _, loc, _) = c.find(&step_of(StepType::Given, "one")).unwrap().unwrap();
    assert_eq!(loc, Some(Location::new("a.rs", 1, 1)));
    assert_eq!(f(&mut TestWorld, Context::new(step_of(StepType::Given, "one"), vec![])), 2);
    assert!(c.find(&step_of(StepType::Then, "three")).unwrap().is_some());
}
