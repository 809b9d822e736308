//! The relay: CORS, ingest parsing, forward preparation, lifecycle, and
//! worker-pool backpressure.

use easy_log_forwarding::relay::{
    parse_line, IngestOutcome, Relay, RelayError, RelayPhase, RelaySettings, WorkerPool,
};
use easy_log_forwarding::render::NetworkFormat;
use easy_log_forwarding::severity::Severity;

fn settings(format: NetworkFormat, origins: Vec<Vec<u8>>, workers: usize) -> RelaySettings {
    RelaySettings {
        listen_address: b"0.0.0.0:8080".to_vec(),
        output_url: b"http://collector.example/ingest".to_vec(),
        output_format: format,
        cors_allowed_origins: origins,
        workers,
    }
}

fn listening_relay(format: NetworkFormat, origins: Vec<Vec<u8>>) -> Relay {
    let mut relay = Relay::new(settings(format, origins, 2)).unwrap();
    relay.begin_listen(true).unwrap();
    relay
}

#[test]
fn cors_allowed_origin_is_accepted_and_other_rejected() {
    let relay = listening_relay(
        NetworkFormat::PlainText,
        vec![b"https://good.example".to_vec()],
    );
    let body = b"2024 [x]|INFO|web|api|hello".to_vec();
    let evil = relay.handle_ingest(&Some(b"https://evil.example".to_vec()), &body);
    assert!(matches!(evil, IngestOutcome::CorsRejected));
    let good = relay.handle_ingest(&Some(b"https://good.example".to_vec()), &body);
    assert!(matches!(good, IngestOutcome::Accepted(_)));
}

#[test]
fn cors_empty_allow_list_rejects_every_cross_origin_request() {
    let relay = listening_relay(NetworkFormat::PlainText, Vec::new());
    let body = b"2024|INFO|web|api|hello".to_vec();
    let outcome = relay.handle_ingest(&Some(b"https://good.example".to_vec()), &body);
    assert!(matches!(outcome, IngestOutcome::CorsRejected));
    // A same-origin request (no Origin header) is not subject to CORS.
    let outcome = relay.handle_ingest(&None, &body);
    assert!(matches!(outcome, IngestOutcome::Accepted(_)));
}

#[test]
fn ingest_submission_forwards_plain_rendering() {
    let relay = listening_relay(NetworkFormat::PlainText, Vec::new());
    let body = b"2024-05-01 09:30:00|INFO|web-1|api|hello".to_vec();
    match relay.handle_ingest(&None, &body) {
        IngestOutcome::Accepted(bodies) => {
            assert_eq!(bodies.len(), 1);
            assert_eq!(
                bodies[0],
                b"2024-05-01 09:30:00 [INFO] web-1 - api: hello".to_vec()
            );
        }
        other => panic!("expected acceptance, got {:?}", outcome_name(&other)),
    }
}

#[test]
fn ingest_batch_keeps_order_and_message_pipes() {
    let relay = listening_relay(NetworkFormat::PlainText, Vec::new());
    let body = b"t1|WARN|m|c|first\nt2|ERROR|m|c|second | with pipe".to_vec();
    match relay.handle_ingest(&None, &body) {
        IngestOutcome::Accepted(bodies) => {
            assert_eq!(bodies.len(), 2);
            assert_eq!(bodies[0], b"t1 [WARN] m - c: first".to_vec());
            assert_eq!(bodies[1], b"t2 [ERROR] m - c: second | with pipe".to_vec());
        }
        other => panic!("expected acceptance, got {:?}", outcome_name(&other)),
    }
}

#[test]
fn ingest_empty_body_is_zero_records() {
    let relay = listening_relay(NetworkFormat::PlainText, Vec::new());
    match relay.handle_ingest(&None, &Vec::new()) {
        IngestOutcome::Accepted(bodies) => assert_eq!(bodies.len(), 0),
        other => panic!("expected acceptance, got {:?}", outcome_name(&other)),
    }
}

#[test]
fn ingest_malformed_line_is_rejected() {
    let relay = listening_relay(NetworkFormat::PlainText, Vec::new());
    let missing_fields = b"just some text".to_vec();
    assert!(matches!(
        relay.handle_ingest(&None, &missing_fields),
        IngestOutcome::Malformed
    ));
    let bad_severity = b"t|LOUD|m|c|x".to_vec();
    assert!(matches!(
        relay.handle_ingest(&None, &bad_severity),
        IngestOutcome::Malformed
    ));
}

#[test]
fn ingest_json_output_format() {
    let relay = listening_relay(
        NetworkFormat::JsonText { field: b"msg".to_vec() },
        Vec::new(),
    );
    let body = b"t1|INFO|m|c|hello".to_vec();
    match relay.handle_ingest(&None, &body) {
        IngestOutcome::Accepted(bodies) => {
            assert_eq!(bodies.len(), 1);
            assert_eq!(
                bodies[0],
                b"{\"timestamp\":\"t1\",\"severity\":\"INFO\",\"machine\":\"m\",\"container\":\"c\",\"msg\":\"hello\"}"
                    .to_vec()
            );
        }
        other => panic!("expected acceptance, got {:?}", outcome_name(&other)),
    }
}

#[test]
fn ingest_json_output_drops_unrepresentable_record_locally() {
    let relay = listening_relay(
        NetworkFormat::JsonText { field: b"msg".to_vec() },
        Vec::new(),
    );
    // Two records; the first message holds a control byte JSON cannot
    // carry here, so only the second is forwarded.
    let body = b"t1|INFO|m|c|bad\x01byte\nt2|INFO|m|c|fine".to_vec();
    match relay.handle_ingest(&None, &body) {
        IngestOutcome::Accepted(bodies) => {
            assert_eq!(bodies.len(), 1);
            assert!(bodies[0].ends_with(b"\"msg\":\"fine\"}"));
        }
        other => panic!("expected acceptance, got {:?}", outcome_name(&other)),
    }
}

#[test]
fn parse_line_extracts_fields() {
    let rec = parse_line(b"t|ERROR|web|api|a|b|c").unwrap();
    assert_eq!(rec.timestamp, b"t".to_vec());
    assert_eq!(rec.severity, Severity::Error);
    assert_eq!(rec.machine_name, b"web".to_vec());
    assert_eq!(rec.container_name, b"api".to_vec());
    assert_eq!(rec.message, b"a|b|c".to_vec());
    assert!(parse_line(b"t|ERROR|web|api").is_none());
}

#[test]
fn relay_rejects_invalid_settings() {
    let zero_workers = settings(NetworkFormat::PlainText, Vec::new(), 0);
    assert!(matches!(
        Relay::new(zero_workers),
        Err(RelayError::InvalidSettings)
    ));
    let mut no_listener = settings(NetworkFormat::PlainText, Vec::new(), 1);
    no_listener.listen_address = Vec::new();
    assert!(matches!(
        Relay::new(no_listener),
        Err(RelayError::InvalidSettings)
    ));
    let empty_field = settings(
        NetworkFormat::JsonText { field: Vec::new() },
        Vec::new(),
        1,
    );
    assert!(matches!(
        Relay::new(empty_field),
        Err(RelayError::InvalidSettings)
    ));
}

#[test]
fn relay_lifecycle_clean_stop_and_failure() {
    let mut relay = Relay::new(settings(NetworkFormat::PlainText, Vec::new(), 1)).unwrap();
    assert_eq!(relay.phase, RelayPhase::Starting);
    relay.begin_listen(true).unwrap();
    assert_eq!(relay.phase, RelayPhase::Listening);
    assert!(relay.finish(None).is_ok());
    assert_eq!(relay.phase, RelayPhase::Stopped);

    let mut failing = Relay::new(settings(NetworkFormat::PlainText, Vec::new(), 1)).unwrap();
    assert_eq!(
        failing.begin_listen(false).unwrap_err(),
        RelayError::BindFailed
    );
    assert_eq!(failing.phase, RelayPhase::Failed);

    let mut faulted = Relay::new(settings(NetworkFormat::PlainText, Vec::new(), 1)).unwrap();
    faulted.begin_listen(true).unwrap();
    assert_eq!(
        faulted.finish(Some(RelayError::ListenerFault)).unwrap_err(),
        RelayError::ListenerFault
    );
    assert_eq!(faulted.phase, RelayPhase::Failed);
}

#[test]
fn worker_pool_backpressure_scenario() {
    // Pool of N = 2; N + 1 concurrent forwards: the third waits (denied,
    // not dropped) until one of the first two releases, then proceeds.
    let mut pool = WorkerPool::new(2);
    assert!(pool.try_acquire());
    assert!(pool.try_acquire());
    assert!(!pool.try_acquire());
    assert_eq!(pool.busy, 2);
    pool.release();
    assert!(pool.try_acquire());
    assert_eq!(pool.busy, 2);
    // All three eventually complete.
    pool.release();
    pool.release();
    assert_eq!(pool.busy, 0);
}

fn outcome_name(o: &IngestOutcome) -> &'static str {
    match o {
        IngestOutcome::Accepted(_) => "Accepted",
        IngestOutcome::CorsRejected => "CorsRejected",
        IngestOutcome::Malformed => "Malformed",
    }
}
