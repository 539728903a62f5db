//! The body-specification grammar, the number parser, and the worker
//! decisions.

use perf_gauge::bench_run::is_fatal_outcome;
use perf_gauge::configuration::{materialize_body, parse_body_spec, parse_u32, BodySource};
use perf_gauge::metrics::RequestStats;

#[test]
fn test_parse_u32_accepts_digits() {
    assert_eq!(parse_u32("0"), Some(0));
    assert_eq!(parse_u32("123"), Some(123));
    assert_eq!(parse_u32("4294967295"), Some(u32::MAX));
}

#[test]
fn test_parse_u32_rejects_everything_else() {
    assert_eq!(parse_u32(""), None);
    assert_eq!(parse_u32("12a"), None);
    assert_eq!(parse_u32("-5"), None);
    assert_eq!(parse_u32("+5"), None);
    assert_eq!(parse_u32("4294967296"), None);
}

#[test]
fn test_body_spec_none_is_empty() {
    let parsed = parse_body_spec(&None).expect("no body is fine");
    assert!(matches!(parsed, BodySource::Empty));
    let bytes = materialize_body(parsed).expect("empty body");
    assert!(bytes.is_empty());
}

#[test]
fn test_body_spec_random() {
    let parsed = parse_body_spec(&Some("random://16".to_string())).expect("random body");
    assert!(matches!(parsed, BodySource::Random(16)));
    let bytes = materialize_body(parsed).expect("random body");
    assert_eq!(bytes.len(), 16);
}

#[test]
fn test_body_spec_base64_round_trip() {
    let parsed = parse_body_spec(&Some("base64://d29ybGQ=".to_string())).expect("inline body");
    let bytes = materialize_body(parsed).expect("inline body");
    assert_eq!(bytes, b"world".to_vec());
}

#[test]
fn test_body_spec_file() {
    let parsed = parse_body_spec(&Some("file://payload.bin".to_string())).expect("file body");
    match parsed {
        BodySource::File(path) => assert_eq!(path, "payload.bin"),
        other => panic!("expected a file source, got {}", kind_of(&other)),
    }
}

fn kind_of(b: &BodySource) -> &'static str {
    match b {
        BodySource::Empty => "empty",
        BodySource::Random(_) => "random",
        BodySource::Decoded(_) => "decoded",
        BodySource::File(_) => "file",
    }
}

#[test]
fn test_body_spec_rejects_unknown_scheme() {
    assert!(parse_body_spec(&Some("ftp://x".to_string())).is_err());
    assert!(parse_body_spec(&Some("random://abc".to_string())).is_err());
    assert!(parse_body_spec(&Some("base64://%%%".to_string())).is_err());
}

#[test]
fn test_materialize_rejects_file_source() {
    assert!(materialize_body(BodySource::File("payload.bin".to_string())).is_err());
}

#[test]
fn test_fatal_outcomes() {
    assert!(is_fatal_outcome(None));
    let fatal = RequestStats {
        is_success: false,
        bytes_processed: 0,
        status: "401 Unauthorized".to_string(),
        duration_micros: 10,
        fatal_error: true,
        operation_name: None,
    };
    assert!(is_fatal_outcome(Some(&fatal)));
    let benign = RequestStats {
        is_success: true,
        bytes_processed: 5,
        status: "200 OK".to_string(),
        duration_micros: 10,
        fatal_error: false,
        operation_name: None,
    };
    assert!(!is_fatal_outcome(Some(&benign)));
}
