//! The severity scale and per-sink filtering.

use easy_log_forwarding::severity::{severity_from_name, should_emit, Severity};

fn all() -> Vec<Severity> {
    vec![
        Severity::Trace,
        Severity::Debug,
        Severity::Info,
        Severity::Warn,
        Severity::Error,
    ]
}

fn position(s: Severity) -> usize {
    all().iter().position(|x| *x == s).unwrap()
}

#[test]
fn emit_matches_total_order_for_every_pair() {
    for &level in all().iter() {
        for &min in all().iter() {
            let expected = position(level) >= position(min);
            assert_eq!(should_emit(level, min), expected, "{:?} vs {:?}", level, min);
        }
    }
}

#[test]
fn emit_examples() {
    assert!(should_emit(Severity::Error, Severity::Warn));
    assert!(should_emit(Severity::Warn, Severity::Warn));
    assert!(!should_emit(Severity::Info, Severity::Warn));
    assert!(!should_emit(Severity::Trace, Severity::Error));
    assert!(should_emit(Severity::Error, Severity::Trace));
}

#[test]
fn severity_names_round_trip() {
    for &s in all().iter() {
        let name = s.name_bytes();
        assert_eq!(severity_from_name(&name), Some(s));
    }
    assert_eq!(severity_from_name(&b"WARNING".to_vec()), None);
    assert_eq!(severity_from_name(&b"warn".to_vec()), None);
    assert_eq!(severity_from_name(&b"".to_vec()), None);
}

#[test]
fn severity_level_positions() {
    assert_eq!(Severity::Trace.level(), 0);
    assert_eq!(Severity::Debug.level(), 1);
    assert_eq!(Severity::Info.level(), 2);
    assert_eq!(Severity::Warn.level(), 3);
    assert_eq!(Severity::Error.level(), 4);
}
