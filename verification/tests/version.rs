use faiss_rabitq::version::FaissVersion;
use faiss_rabitq::min_ivf_rabitq_version;

#[test]
fn parse_version_string() {
    let version = FaissVersion::parse("1.11.0-dev").expect("version should parse");
    assert_eq!(version, FaissVersion::new(1, 11, 0));
}

#[test]
fn parse_plain_release() {
    assert_eq!(FaissVersion::parse("1.8.0"), Some(FaissVersion::new(1, 8, 0)));
    assert_eq!(FaissVersion::parse("10.200.3000"), Some(FaissVersion::new(10, 200, 3000)));
}

#[test]
fn parse_ignores_extra_fields_and_suffixes() {
    assert_eq!(FaissVersion::parse("1.2.3.4"), Some(FaissVersion::new(1, 2, 3)));
    assert_eq!(FaissVersion::parse("1rc.2b.3"), Some(FaissVersion::new(1, 2, 3)));
    assert_eq!(FaissVersion::parse("1.11.0-dev.7"), Some(FaissVersion::new(1, 11, 0)));
}

#[test]
fn parse_rejects_missing_fields() {
    assert_eq!(FaissVersion::parse(""), None);
    assert_eq!(FaissVersion::parse("1"), None);
    assert_eq!(FaissVersion::parse("1.11"), None);
    assert_eq!(FaissVersion::parse("1.11."), None);
}

#[test]
fn parse_rejects_fields_without_leading_digits() {
    assert_eq!(FaissVersion::parse("v1.2.3"), None);
    assert_eq!(FaissVersion::parse("1.x.3"), None);
    assert_eq!(FaissVersion::parse("1.2.-3"), None);
    assert_eq!(FaissVersion::parse(" 1.2.3"), None);
}

#[test]
fn parse_component_bounds() {
    assert_eq!(
        FaissVersion::parse("4294967295.0.0"),
        Some(FaissVersion::new(4294967295, 0, 0))
    );
    assert_eq!(FaissVersion::parse("4294967296.0.0"), None);
    assert_eq!(FaissVersion::parse("0.0.99999999999999999999"), None);
    assert_eq!(FaissVersion::parse("007.08.0009"), Some(FaissVersion::new(7, 8, 9)));
}

#[test]
fn display_text_of_versions() {
    assert_eq!(FaissVersion::new(1, 11, 0).to_string(), "1.11.0");
    assert_eq!(FaissVersion::new(0, 0, 0).to_string(), "0.0.0");
    assert_eq!(
        FaissVersion::new(4294967295, 10, 9).to_string(),
        "4294967295.10.9"
    );
}

#[test]
fn round_trip_of_rendered_versions() {
    for v in [
        FaissVersion::new(0, 0, 0),
        FaissVersion::new(1, 11, 0),
        FaissVersion::new(12, 305, 7),
        FaissVersion::new(4294967295, 4294967295, 4294967295),
    ] {
        assert_eq!(FaissVersion::parse(&v.to_string()), Some(v));
        let with_suffix = format!("{}-dev", v.to_string());
        assert_eq!(FaissVersion::parse(&with_suffix), Some(v));
    }
}

#[test]
fn precedes_orders_fields_in_turn() {
    let min = min_ivf_rabitq_version();
    assert_eq!(min, FaissVersion::new(1, 11, 0));
    assert!(FaissVersion::new(1, 10, 9).precedes(&min));
    assert!(FaissVersion::new(0, 99, 99).precedes(&min));
    assert!(!FaissVersion::new(1, 11, 0).precedes(&min));
    assert!(!FaissVersion::new(1, 11, 1).precedes(&min));
    assert!(!FaissVersion::new(2, 0, 0).precedes(&min));
    assert!(!min.precedes(&min));
}

#[test]
fn precedes_agrees_with_derived_order() {
    let vs = [
        FaissVersion::new(0, 0, 0),
        FaissVersion::new(0, 0, 1),
        FaissVersion::new(0, 1, 0),
        FaissVersion::new(1, 0, 0),
        FaissVersion::new(1, 11, 0),
        FaissVersion::new(1, 11, 2),
    ];
    for a in vs {
        for b in vs {
            assert_eq!(a.precedes(&b), a < b);
        }
    }
}
