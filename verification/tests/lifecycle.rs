//! Logger init/fan-out and the heartbeat/shutdown coordination.

use easy_log_forwarding::heartbeat::{HeartbeatCoordinator, HeartbeatEvent, ShutdownSignal};
use easy_log_forwarding::logger::{InitError, Logger, LoggerSettings, SinkKind};
use easy_log_forwarding::record::LogRecord;
use easy_log_forwarding::render::NetworkFormat;
use easy_log_forwarding::severity::Severity;

fn base_settings() -> LoggerSettings {
    LoggerSettings {
        terminal_logs: false,
        terminal_log_lvl: Severity::Trace,
        file_logs: false,
        file_log_lvl: Severity::Trace,
        log_file_path: b"/var/log/app.log".to_vec(),
        network_logs: false,
        network_log_lvl: Severity::Trace,
        network_endpoint_url: b"http://collector.example/logs".to_vec(),
        network_format: NetworkFormat::PlainText,
        debug_extra: false,
        async_logging: false,
    }
}

fn record(severity: Severity, message: &[u8]) -> LogRecord {
    LogRecord::new(
        b"2024-05-01 12:00:00".to_vec(),
        severity,
        message.to_vec(),
        b"web-1".to_vec(),
        b"api".to_vec(),
    )
    .unwrap()
}

#[test]
fn init_validates_and_initializes_once() {
    let mut logger = Logger::new();
    logger.init(base_settings()).unwrap();
    assert_eq!(
        logger.init(base_settings()).unwrap_err(),
        InitError::AlreadyInitialized
    );
}

#[test]
fn init_reports_the_first_settings_fault() {
    let mut empty_path = base_settings();
    empty_path.file_logs = true;
    empty_path.log_file_path = Vec::new();
    let mut logger = Logger::new();
    assert_eq!(logger.init(empty_path).unwrap_err(), InitError::EmptyFilePath);

    let mut bad_url = base_settings();
    bad_url.network_logs = true;
    bad_url.network_endpoint_url = b"collector.example".to_vec();
    let mut logger = Logger::new();
    assert_eq!(
        logger.init(bad_url).unwrap_err(),
        InitError::InvalidNetworkEndpoint
    );

    let mut bad_format = base_settings();
    bad_format.network_logs = true;
    bad_format.network_format = NetworkFormat::JsonText { field: Vec::new() };
    let mut logger = Logger::new();
    assert_eq!(
        logger.init(bad_format).unwrap_err(),
        InitError::InvalidNetworkFormat
    );
    // A failed init leaves the logger free to be initialized properly.
    logger.init(base_settings()).unwrap();
}

#[test]
fn file_sink_filters_below_minimum_and_appends_one_line() {
    let mut settings = base_settings();
    settings.file_logs = true;
    settings.file_log_lvl = Severity::Warn;
    let mut logger = Logger::new();
    logger.init(settings).unwrap();

    // An Info record produces no file write.
    let plan = logger.dispatch(&record(Severity::Info, b"routine"));
    assert_eq!(plan.actions.len(), 0);

    // A Warn record appends exactly one line in the plain-text layout.
    let plan = logger.dispatch(&record(Severity::Warn, b"low disk"));
    assert_eq!(plan.actions.len(), 1);
    assert_eq!(plan.actions[0].kind, SinkKind::File);
    assert_eq!(
        plan.actions[0].payload,
        b"2024-05-01 12:00:00 [WARN] web-1 - api: low disk\n".to_vec()
    );
}

#[test]
fn fan_out_is_per_sink_and_ordered() {
    let mut settings = base_settings();
    settings.terminal_logs = true;
    settings.terminal_log_lvl = Severity::Trace;
    settings.file_logs = true;
    settings.file_log_lvl = Severity::Warn;
    settings.network_logs = true;
    settings.network_log_lvl = Severity::Error;
    settings.network_format = NetworkFormat::JsonText { field: b"msg".to_vec() };
    settings.async_logging = true;
    let mut logger = Logger::new();
    logger.init(settings).unwrap();

    let plan = logger.dispatch(&record(Severity::Info, b"hello"));
    assert!(plan.asynchronous);
    assert_eq!(plan.actions.len(), 1);
    assert_eq!(plan.actions[0].kind, SinkKind::Terminal { stderr: false });

    let plan = logger.dispatch(&record(Severity::Error, b"boom"));
    let kinds: Vec<SinkKind> = plan.actions.iter().map(|a| a.kind).collect();
    assert_eq!(
        kinds,
        vec![
            SinkKind::Terminal { stderr: true },
            SinkKind::File,
            SinkKind::Network,
        ]
    );
    assert!(plan.actions[2].payload.starts_with(b"{\"timestamp\""));
}

#[test]
fn network_sink_drops_unrepresentable_record_only_there() {
    let mut settings = base_settings();
    settings.terminal_logs = true;
    settings.network_logs = true;
    settings.network_format = NetworkFormat::JsonText { field: b"msg".to_vec() };
    let mut logger = Logger::new();
    logger.init(settings).unwrap();

    let plan = logger.dispatch(&record(Severity::Error, b"bad\x03byte"));
    // The terminal still gets the record; the JSON network sink drops it.
    let kinds: Vec<SinkKind> = plan.actions.iter().map(|a| a.kind).collect();
    assert_eq!(kinds, vec![SinkKind::Terminal { stderr: true }]);
}

#[test]
fn shutdown_signal_fire_twice_equals_once() {
    let mut signal = ShutdownSignal::new();
    assert!(!signal.is_fired());
    signal.fire();
    assert!(signal.is_fired());
    signal.fire();
    assert!(signal.is_fired());
}

#[test]
fn heartbeat_tick_emits_error_record_with_marker() {
    let mut hb = HeartbeatCoordinator::new(b"web-1".to_vec(), b"api".to_vec()).unwrap();
    let ts = b"2024-05-01 00:00:00".to_vec();
    let rec = hb.step(HeartbeatEvent::Tick, &ts).unwrap();
    assert_eq!(rec.severity, Severity::Error);
    assert_eq!(rec.message, b"HEARTBEAT - not a real error - HEARTBEAT".to_vec());
    assert_eq!(rec.machine_name, b"web-1".to_vec());
    assert_eq!(rec.container_name, b"api".to_vec());
    assert_eq!(hb.beats, 1);
}

#[test]
fn heartbeat_shutdown_before_first_tick_emits_nothing() {
    let mut hb = HeartbeatCoordinator::new(b"web-1".to_vec(), b"api".to_vec()).unwrap();
    let ts = b"t".to_vec();
    assert!(hb.step(HeartbeatEvent::Shutdown, &ts).is_none());
    assert!(hb.step(HeartbeatEvent::Tick, &ts).is_none());
    assert!(hb.step(HeartbeatEvent::Tick, &ts).is_none());
    assert_eq!(hb.beats, 0);
    assert!(hb.stopped);
}

#[test]
fn heartbeat_shutdown_twice_stops_exactly_once() {
    let mut hb = HeartbeatCoordinator::new(b"web-1".to_vec(), b"api".to_vec()).unwrap();
    let ts = b"t".to_vec();
    assert!(hb.step(HeartbeatEvent::Tick, &ts).is_some());
    assert!(hb.step(HeartbeatEvent::Shutdown, &ts).is_none());
    let beats_after_first = hb.beats;
    assert!(hb.step(HeartbeatEvent::Shutdown, &ts).is_none());
    assert_eq!(hb.beats, beats_after_first);
    assert!(hb.stopped);
    assert!(hb.step(HeartbeatEvent::Tick, &ts).is_none());
}
