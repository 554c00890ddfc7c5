use cucumber::features::{enabled_features, features_summary, has_macros_feature, has_tracing_feature};

#[test]
fn test_has_macros_feature() {
    let has_macros = has_macros_feature();
    assert!(has_macros || !has_macros);
}

#[test]
fn test_has_tracing_feature() {
    let has_tracing = has_tracing_feature();
    assert!(has_tracing || !has_tracing);
}

#[test]
fn test_enabled_features_returns_slice() {
    let features = enabled_features();
    assert!(features.len() >= 0);
}

#[test]
fn test_features_summary_format() {
    let summary = features_summary();
    assert!(!summary.is_empty());
    if enabled_features().is_empty() {
        assert_eq!(summary, "No optional features enabled");
    } else {
        assert!(summary.starts_with("Enabled features: "));
    }
}

#[test]
fn test_macros_feature_disabled() {
    assert!(!has_macros_feature());
    assert!(!enabled_features().contains(&"macros"));
}

#[test]
fn test_tracing_feature_disabled() {
    assert!(!has_tracing_feature());
    assert!(!enabled_features().contains(&"tracing"));
}

#[test]
fn test_features_consistency() {
    let features = enabled_features();
    if has_macros_feature() {
        assert!(features.contains(&"macros"));
    } else {
        assert!(!features.contains(&"macros"));
    }
    if has_tracing_feature() {
        assert!(features.contains(&"tracing"));
    } else {
        assert!(!features.contains(&"tracing"));
    }
}
