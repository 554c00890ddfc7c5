use cucumber::step::HashableRegex;
use regex::Regex;
use std::cmp::Ordering;
use std::collections::{HashMap, HashSet};
use std::hash::{Hash, Hasher};

#[test]
fn hashable_regex_new_creates_wrapper() {
    let regex = Regex::new(r"test").unwrap();
    let hashable = HashableRegex::new(regex.clone());
    assert_eq!(hashable.as_str(), regex.as_str());
}

#[test]
fn hashable_regex_from_regex_works() {
    let regex = Regex::new(r"test").unwrap();
    let hashable: HashableRegex = regex.clone().into();
    assert_eq!(hashable.as_str(), regex.as_str());
}

#[test]
fn hashable_regex_inner_returns_regex_reference() {
    let regex = Regex::new(r"test").unwrap();
    let hashable = HashableRegex::new(regex.clone());
    assert_eq!(hashable.inner().as_str(), regex.as_str());
}

#[test]
fn hashable_regex_into_inner_returns_regex() {
    let regex = Regex::new(r"test").unwrap();
    let pattern = regex.as_str().to_string();
    let hashable = HashableRegex::new(regex);
    let inner = hashable.into_inner();
    assert_eq!(inner.as_str(), pattern);
}

#[test]
fn hashable_regex_as_str_returns_pattern() {
    let regex = Regex::new(r"test pattern").unwrap();
    let hashable = HashableRegex::new(regex);
    assert_eq!(hashable.as_str(), "test pattern");
}

#[test]
fn hashable_regex_equality_works() {
    let hashable1 = HashableRegex::new(Regex::new(r"test").unwrap());
    let hashable2 = HashableRegex::new(Regex::new(r"test").unwrap());
    let hashable3 = HashableRegex::new(Regex::new(r"different").unwrap());

    assert_eq!(hashable1, hashable2);
    assert_ne!(hashable1, hashable3);
}

#[test]
fn hashable_regex_ordering_works() {
    let hashable_a = HashableRegex::new(Regex::new(r"a").unwrap());
    let hashable_b = HashableRegex::new(Regex::new(r"b").unwrap());
    let hashable_z = HashableRegex::new(Regex::new(r"z").unwrap());

    assert!(hashable_a < hashable_b);
    assert!(hashable_b < hashable_z);
    assert!(hashable_a < hashable_z);

    assert_eq!(hashable_a.cmp(&hashable_b), Ordering::Less);
    assert_eq!(hashable_b.cmp(&hashable_a), Ordering::Greater);
    assert_eq!(hashable_a.cmp(&hashable_a), Ordering::Equal);
}

#[test]
fn hashable_regex_can_be_used_in_hashmap() {
    let mut map = HashMap::new();
    map.insert(HashableRegex::new(Regex::new(r"pattern1").unwrap()), "value1");
    map.insert(HashableRegex::new(Regex::new(r"pattern2").unwrap()), "value2");

    assert_eq!(map.len(), 2);

    let lookup_key = HashableRegex::new(Regex::new(r"pattern1").unwrap());
    assert_eq!(map.get(&lookup_key), Some(&"value1"));
}

#[test]
fn hashable_regex_can_be_used_in_hashset() {
    let mut set = HashSet::new();
    set.insert(HashableRegex::new(Regex::new(r"pattern1").unwrap()));
    set.insert(HashableRegex::new(Regex::new(r"pattern2").unwrap()));
    set.insert(HashableRegex::new(Regex::new(r"pattern1").unwrap()));

    assert_eq!(set.len(), 2);
}

#[test]
fn hashable_regex_hash_consistency() {
    let hashable1 = HashableRegex::new(Regex::new(r"test").unwrap());
    let hashable2 = HashableRegex::new(Regex::new(r"test").unwrap());

    assert_eq!(hashable1, hashable2);

    let mut hasher1 = std::collections::hash_map::DefaultHasher::new();
    let mut hasher2 = std::collections::hash_map::DefaultHasher::new();

    hashable1.hash(&mut hasher1);
    hashable2.hash(&mut hasher2);

    assert_eq!(hasher1.finish(), hasher2.finish());
}

#[test]
fn hashable_regex_clone_works() {
    let hashable = HashableRegex::new(Regex::new(r"test").unwrap());
    let cloned = hashable.clone();

    assert_eq!(hashable, cloned);
    assert_eq!(hashable.as_str(), cloned.as_str());
}

#[test]
fn hashable_regex_display_works() {
    let hashable = HashableRegex::new(Regex::new(r"test pattern").unwrap());
    let display_output = hashable.to_string();
    assert_eq!(display_output, "test pattern");
}

#[test]
fn hashable_regex_debug_works() {
    let hashable = HashableRegex::new(Regex::new(r"test").unwrap());
    let debug_output = format!("{:?}", hashable);
    assert!(debug_output.contains("HashableRegex"));
}

#[test]
fn hashable_regex_orders_by_pattern_text_not_by_length() {
    let short = HashableRegex::new(Regex::new(r"b").unwrap());
    let long = HashableRegex::new(Regex::new(r"ab").unwrap());
    let prefix = HashableRegex::new(Regex::new(r"a").unwrap());
    assert_eq!(long.cmp(&short), Ordering::Less);
    assert_eq!(prefix.cmp(&long), Ordering::Less);
    assert_eq!(short.partial_cmp(&long), Some(Ordering::Greater));
}

#[test]
fn hashable_regex_deref_works() {
    let regex = regex::Regex::new(r"test (\d+)").unwrap();
    let hashable = cucumber::step::HashableRegex::new(regex);

    // Should be able to call Regex methods directly
    assert!(hashable.is_match("test 123"));
    assert!(!hashable.is_match("no match"));

    let captures = hashable.captures("test 456").unwrap();
    assert_eq!(captures.get(1).unwrap().as_str(), "456");
}
