use cucumber::exports::Future;
use std::fmt::{Debug, Display};
use std::path::Path;
use cucumber::exports::version::{description, name, version, version_string};

#[test]
fn test_gherkin_reexport() {
    let _position = cucumber::exports::gherkin::LineCol { line: 1, col: 1 };
}

#[test]
fn test_version_info() {
    assert!(!version().is_empty());
    assert!(!name().is_empty());
    assert!(!description().is_empty());

    let version_str = version_string();
    assert!(version_str.contains(name()));
    assert!(version_str.contains(version()));
}

#[test]
fn test_future_reexport() {
    fn _test_future() -> impl Future<Output = ()> {
        async {}
    }
}

#[test]
fn test_display_trait_import() {
    fn _test_display<T: Display>(_: T) {}
    _test_display("test");
}

#[test]
fn test_debug_and_path_imports() {
    fn _test_debug<T: Debug>(_: T) {}
    fn _test_path<P: AsRef<Path>>(_: P) {}
    _test_debug("test");
    _test_path("test/path");
}

#[test]
fn version_string_is_name_and_version() {
    assert_eq!(version_string(), format!("{} v{}", name(), version()));
}
