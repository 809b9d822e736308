//! Wire-format rendering and the JSON round trip.

use easy_log_forwarding::parse::parse_json;
use easy_log_forwarding::record::LogRecord;
use easy_log_forwarding::render::{render, render_json, render_plain, EncodingError, NetworkFormat};
use easy_log_forwarding::severity::Severity;

fn record(severity: Severity, message: &[u8]) -> LogRecord {
    LogRecord::new(
        b"2024-05-01 12:00:00".to_vec(),
        severity,
        message.to_vec(),
        b"web-1".to_vec(),
        b"api".to_vec(),
    )
    .unwrap()
}

#[test]
fn plain_line_layout_is_exact() {
    let r = record(Severity::Warn, b"disk almost full");
    let line = render_plain(&r);
    assert_eq!(
        line,
        b"2024-05-01 12:00:00 [WARN] web-1 - api: disk almost full".to_vec()
    );
}

#[test]
fn json_object_layout_is_exact() {
    let r = record(Severity::Info, b"hello");
    let out = render_json(&r, &b"msg".to_vec()).unwrap();
    assert_eq!(
        out,
        b"{\"timestamp\":\"2024-05-01 12:00:00\",\"severity\":\"INFO\",\"machine\":\"web-1\",\"container\":\"api\",\"msg\":\"hello\"}"
            .to_vec()
    );
}

#[test]
fn json_round_trip_plain_message() {
    let r = record(Severity::Info, b"hello world");
    let field = b"msg".to_vec();
    let out = render_json(&r, &field).unwrap();
    let back = parse_json(&out, &field).unwrap();
    assert_eq!(back.message, b"hello world".to_vec());
    assert_eq!(back.timestamp, r.timestamp);
    assert_eq!(back.severity, r.severity);
    assert_eq!(back.machine_name, r.machine_name);
    assert_eq!(back.container_name, r.container_name);
}

#[test]
fn json_round_trip_with_escapes() {
    let r = record(Severity::Error, b"say \"hi\" \\ and { } , : again");
    let field = b"msg".to_vec();
    let out = render_json(&r, &field).unwrap();
    let back = parse_json(&out, &field).unwrap();
    assert_eq!(back.message, b"say \"hi\" \\ and { } , : again".to_vec());
}

#[test]
fn json_round_trip_message_mimicking_structure() {
    // A message that looks like the object's own framing must still come
    // back verbatim.
    let r = record(Severity::Warn, b"\",\"severity\":\"ERROR");
    let field = b"payload".to_vec();
    let out = render_json(&r, &field).unwrap();
    let back = parse_json(&out, &field).unwrap();
    assert_eq!(back.message, b"\",\"severity\":\"ERROR".to_vec());
}

#[test]
fn json_rejects_unrepresentable_message() {
    let r = record(Severity::Info, b"bad\x01byte");
    let err = render_json(&r, &b"msg".to_vec()).unwrap_err();
    assert_eq!(err, EncodingError::UnrepresentableMessage);
}

#[test]
fn json_parse_rejects_wrong_field() {
    let r = record(Severity::Info, b"hello");
    let out = render_json(&r, &b"msg".to_vec()).unwrap();
    assert!(parse_json(&out, &b"other".to_vec()).is_none());
}

#[test]
fn json_parse_rejects_trailing_bytes() {
    let r = record(Severity::Info, b"hello");
    let mut out = render_json(&r, &b"msg".to_vec()).unwrap();
    out.push(b' ');
    assert!(parse_json(&out, &b"msg".to_vec()).is_none());
}

#[test]
fn render_dispatches_on_format() {
    let r = record(Severity::Info, b"hello");
    let plain = render(&r, &NetworkFormat::PlainText).unwrap();
    assert_eq!(plain, render_plain(&r));
    let json = render(&r, &NetworkFormat::JsonText { field: b"m".to_vec() }).unwrap();
    assert_eq!(json, render_json(&r, &b"m".to_vec()).unwrap());
    // Plain text carries any message; JSON refuses the same record.
    let odd = record(Severity::Info, b"control\x02char");
    assert!(render(&odd, &NetworkFormat::PlainText).is_ok());
    assert!(render(&odd, &NetworkFormat::JsonText { field: b"m".to_vec() }).is_err());
}

#[test]
fn record_rejects_unsafe_header_fields() {
    assert!(LogRecord::new(
        b"2024|05".to_vec(),
        Severity::Info,
        b"m".to_vec(),
        b"web".to_vec(),
        b"api".to_vec(),
    )
    .is_none());
    assert!(LogRecord::new(
        b"2024".to_vec(),
        Severity::Info,
        b"m".to_vec(),
        b"web\x07".to_vec(),
        b"api".to_vec(),
    )
    .is_none());
    // The message itself may hold anything.
    assert!(LogRecord::new(
        b"2024".to_vec(),
        Severity::Info,
        b"pipes | and \n newlines".to_vec(),
        b"web".to_vec(),
        b"api".to_vec(),
    )
    .is_some());
}
