use cucumber::step::Location;
use std::collections::{HashMap, HashSet};

#[test]
fn location_new_creates_location() {
    let location = Location::new("src/test.rs", 42, 10);
    assert_eq!(location.path, "src/test.rs");
    assert_eq!(location.line, 42);
    assert_eq!(location.column, 10);
}

#[test]
fn location_accessors_work() {
    let location = Location::new("src/test.rs", 42, 10);
    assert_eq!(location.path(), "src/test.rs");
    assert_eq!(location.line(), 42);
    assert_eq!(location.column(), 10);
}

#[test]
fn location_filename_returns_filename_from_unix_path() {
    let location = Location::new("src/step/test.rs", 1, 1);
    assert_eq!(location.filename(), "test.rs");
}

#[test]
fn location_filename_returns_filename_from_windows_path() {
    let location = Location::new("src\\step\\test.rs", 1, 1);
    assert_eq!(location.filename(), "test.rs");
}

#[test]
fn location_filename_returns_path_if_no_separators() {
    let location = Location::new("test.rs", 1, 1);
    assert_eq!(location.filename(), "test.rs");
}

#[test]
fn location_short_returns_short_representation() {
    let location = Location::new("src/step/test.rs", 42, 10);
    assert_eq!(location.short(), "test.rs:42:10");
}

#[test]
fn location_display_works() {
    let location = Location::new("src/test.rs", 42, 10);
    let display_output = location.to_string();
    assert_eq!(display_output, "src/test.rs:42:10");
}

#[test]
fn location_debug_works() {
    let location = Location::new("src/test.rs", 42, 10);
    let debug_output = format!("{:?}", location);
    assert!(debug_output.contains("Location"));
    assert!(debug_output.contains("src/test.rs"));
    assert!(debug_output.contains("42"));
    assert!(debug_output.contains("10"));
}

#[test]
fn location_equality_works() {
    let location1 = Location::new("src/test.rs", 42, 10);
    let location2 = Location::new("src/test.rs", 42, 10);
    let location3 = Location::new("src/other.rs", 42, 10);
    let location4 = Location::new("src/test.rs", 43, 10);
    let location5 = Location::new("src/test.rs", 42, 11);

    assert_eq!(location1, location2);
    assert_ne!(location1, location3);
    assert_ne!(location1, location4);
    assert_ne!(location1, location5);
}

#[test]
fn location_ordering_works() {
    let location1 = Location::new("a.rs", 1, 1);
    let location2 = Location::new("b.rs", 1, 1);
    let location3 = Location::new("a.rs", 2, 1);
    let location4 = Location::new("a.rs", 1, 2);

    assert!(location1 < location2);
    assert!(location1 < location3);
    assert!(location1 < location4);
}

#[test]
fn location_can_be_used_in_hashmap() {
    let location1 = Location::new("src/test1.rs", 10, 5);
    let location2 = Location::new("src/test2.rs", 20, 15);

    let mut map = HashMap::new();
    map.insert(location1, "step1");
    map.insert(location2, "step2");

    assert_eq!(map.len(), 2);
    assert_eq!(map.get(&location1), Some(&"step1"));
    assert_eq!(map.get(&location2), Some(&"step2"));
}

#[test]
fn location_can_be_used_in_hashset() {
    let location1 = Location::new("src/test.rs", 10, 5);
    let location2 = Location::new("src/test.rs", 20, 15);
    let location1_duplicate = Location::new("src/test.rs", 10, 5);

    let mut set = HashSet::new();
    set.insert(location1);
    set.insert(location2);
    set.insert(location1_duplicate);

    assert_eq!(set.len(), 2);
}

#[test]
fn location_clone_works() {
    let location = Location::new("src/test.rs", 42, 10);
    let cloned = location.clone();

    assert_eq!(location, cloned);
    assert_eq!(location.path, cloned.path);
    assert_eq!(location.line, cloned.line);
    assert_eq!(location.column, cloned.column);
}

#[test]
fn location_copy_works() {
    let location = Location::new("src/test.rs", 42, 10);
    let copied = location;

    assert_eq!(location, copied);
    assert_eq!(location.path, copied.path);
    assert_eq!(location.line, copied.line);
    assert_eq!(location.column, copied.column);
}

#[test]
fn location_is_const_constructible() {
    const LOCATION: Location = Location { path: "src/test.rs", line: 42, column: 10 };
    assert_eq!(LOCATION.path(), "src/test.rs");
    assert_eq!(LOCATION.line(), 42);
    assert_eq!(LOCATION.column(), 10);
}

#[test]
fn location_partial_ord_works() {
    let location1 = Location::new("a.rs", 1, 1);
    let location2 = Location::new("b.rs", 1, 1);

    assert_eq!(location1.partial_cmp(&location2), Some(std::cmp::Ordering::Less));
    assert_eq!(location2.partial_cmp(&location1), Some(std::cmp::Ordering::Greater));
    assert_eq!(location1.partial_cmp(&location1), Some(std::cmp::Ordering::Equal));
}

#[test]
fn location_filename_follows_the_last_separator_of_either_kind() {
    let location = Location::new("a\\b/c\\d.rs", 1, 1);
    assert_eq!(location.filename(), "d.rs");
    let location = Location::new("a\\b/c.rs", 1, 1);
    assert_eq!(location.filename(), "c.rs");
    let location = Location::new("x/y\\z.rs", 1, 1);
    assert_eq!(location.filename(), "z.rs");
    let location = Location::new("a/b\\c/d.rs", 1, 1);
    assert_eq!(location.filename(), "d.rs");
    let location = Location::new("dir/", 7, 0);
    assert_eq!(location.filename(), "");
    assert_eq!(location.short(), ":7:0");
}
