use cucumber::panic_trap::{coerce_error, PanicDetails, PanicTrap};
use cucumber::parser::{Basic, Walker};

#[test]
fn parser_language_must_be_known() {
    let p = Basic::new().language("fr".to_string()).unwrap();
    assert_eq!(p.get_language().map(|s| s.as_str()), Some("fr"));
    let err = Basic::new().language("xx-nope".to_string()).unwrap_err();
    assert_eq!(err.0, "xx-nope");
    assert_eq!(err.to_string(), "Language xx-nope isn't supported");
    assert!(Basic::new().get_language().is_none());
}

#[test]
fn walker_accepts_valid_globs_only() {
    let w: Walker = "features/**/*.feature".parse().unwrap();
    assert_eq!(w.0, "features/**/*.feature");
    assert!("features/[".parse::<Walker>().is_err());
}

#[test]
fn panic_details_defaults() {
    let d = PanicDetails::new(None, None);
    assert_eq!(d.payload, "Opaque panic payload");
    assert_eq!(d.location, "Unknown panic location");
    let d = PanicDetails::new(Some("boom".to_string()), Some(("src/a.rs".to_string(), 3, 9)));
    assert_eq!(d.payload, "boom");
    assert_eq!(d.location, "src/a.rs:3:9");
    let t = PanicTrap::from_outcome(Some(5), None);
    assert_eq!(t.result.unwrap(), 5);
    let t = PanicTrap::<i32>::from_outcome(None, Some(d));
    assert_eq!(t.result.unwrap_err().payload, "boom");
}

#[test]
fn coerce_error_reads_text_payloads_only() {
    assert_eq!(coerce_error(Some("oops")), "oops");
    assert_eq!(coerce_error(None), "(Could not resolve panic payload)");
}
