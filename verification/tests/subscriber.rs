use tracing_web_console::event::{Level, SpanInfo, Timestamp};
use tracing_web_console::filter::LogFilter;
use tracing_web_console::storage::LogStorage;
use tracing_web_console::subscriber::{
    is_filtered_target, is_noise_event, normalize, FieldVisitor, LogCaptureLayer, RawEvent,
};

fn raw(target: &str, level: Level, fields: FieldVisitor) -> RawEvent {
    RawEvent { target: target.to_string(), level, fields, span: None, file: None, line: None }
}

fn with_message(message: &str) -> FieldVisitor {
    let mut visitor = FieldVisitor::new();
    visitor.record_str("message", message);
    visitor
}

#[test]
fn test_level_conversion() {
    assert_eq!(LogCaptureLayer::level_to_string(&Level::Trace), "TRACE");
    assert_eq!(LogCaptureLayer::level_to_string(&Level::Debug), "DEBUG");
    assert_eq!(LogCaptureLayer::level_to_string(&Level::Info), "INFO");
    assert_eq!(LogCaptureLayer::level_to_string(&Level::Warn), "WARN");
    assert_eq!(LogCaptureLayer::level_to_string(&Level::Error), "ERROR");
}

#[test]
fn test_field_visitor() {
    let visitor = FieldVisitor::new();
    assert_eq!(visitor.fields.len(), 0);
}

#[test]
fn test_log_capture_layer_creation() {
    let storage = LogStorage::new();
    let layer = LogCaptureLayer::new(storage);

    assert_eq!(layer.storage.len(), 0);
}

#[test]
fn visitor_renders_each_kind_of_value() {
    let mut visitor = FieldVisitor::new();
    visitor.record_str("name", "ada");
    visitor.record_i64("delta", -42);
    visitor.record_i64("least", i64::MIN);
    visitor.record_i64("zero", 0);
    visitor.record_u64("count", 18_446_744_073_709_551_615);
    visitor.record_u64("ten", 10);
    visitor.record_bool("ok", true);
    visitor.record_bool("failed", false);
    visitor.record_debug("point", "Point { x: 1 }");
    let get = |k: &str| visitor.fields.get(k).map(|s| s.as_str());
    assert_eq!(get("name"), Some("ada"));
    assert_eq!(get("delta"), Some("-42"));
    assert_eq!(get("least"), Some("-9223372036854775808"));
    assert_eq!(get("zero"), Some("0"));
    assert_eq!(get("count"), Some("18446744073709551615"));
    assert_eq!(get("ten"), Some("10"));
    assert_eq!(get("ok"), Some("true"));
    assert_eq!(get("failed"), Some("false"));
    assert_eq!(get("point"), Some("Point { x: 1 }"));
    assert_eq!(get("missing"), None);
    assert_eq!(visitor.fields.len(), 9);
}

#[test]
fn visitor_keeps_the_last_value_of_a_field() {
    let mut visitor = FieldVisitor::new();
    visitor.record_str("k", "first");
    visitor.record_u64("k", 2);
    assert_eq!(visitor.fields.len(), 1);
    assert_eq!(visitor.fields.get("k").map(|s| s.as_str()), Some("2"));
}

#[test]
fn message_field_is_the_message() {
    let mut visitor = with_message("hello");
    visitor.record_u64("n", 1);
    assert_eq!(LogCaptureLayer::extract_message(&visitor), "hello");
}

#[test]
fn message_is_joined_from_fields_where_none_is_given() {
    let mut visitor = FieldVisitor::new();
    assert_eq!(LogCaptureLayer::extract_message(&visitor), "");
    visitor.record_str("user", "ada");
    assert_eq!(LogCaptureLayer::extract_message(&visitor), "user: ada");
    visitor.record_u64("id", 7);
    visitor.record_bool("admin", false);
    assert_eq!(LogCaptureLayer::extract_message(&visitor), "user: ada, id: 7, admin: false");
}

#[test]
fn noise_targets_are_recognized() {
    for target in [
        "log",
        "log::inner",
        "tracing_web_console",
        "tracing_web_console::api::logs",
        "tungstenite",
        "tungstenite::protocol",
        "tokio_tungstenite",
        "tokio_tungstenite::compat",
    ] {
        assert!(is_filtered_target(target), "{} is noise", target);
    }
    for target in ["logger", "log:", "app", "app::log", "tungstenite_other", "", "tracing"] {
        assert!(!is_filtered_target(target), "{} is no noise", target);
    }
}

#[test]
fn event_on_the_crates_own_target_never_reaches_the_ring() {
    let mut layer = LogCaptureLayer::new(LogStorage::new());
    layer.on_event(raw("tracing_web_console", Level::Error, with_message("own")));
    layer.on_event(raw("tracing_web_console::storage", Level::Info, with_message("own")));
    layer.on_event(raw("log", Level::Info, with_message("bridge")));
    assert!(layer.storage.is_empty());
    layer.on_event(raw("app", Level::Info, with_message("kept")));
    assert_eq!(layer.storage.len(), 1);
}

#[test]
fn shim_target_overrides_the_reported_target() {
    let mut visitor = with_message("from the shim");
    visitor.record_str("log.target", "app::legacy");
    visitor.record_str("log.module_path", "app::legacy");
    visitor.record_str("log.file", "legacy.rs");
    visitor.record_u64("log.line", 3);
    visitor.record_str("user", "ada");
    let event = normalize(raw("log", Level::Warn, visitor), Timestamp { secs: 5, nanos: 6 })
        .unwrap();
    assert_eq!(event.target, "app::legacy");
    assert_eq!(event.level, "WARN");
    assert_eq!(event.message, "from the shim");
    assert_eq!(event.timestamp, Timestamp { secs: 5, nanos: 6 });
    assert_eq!(event.fields.len(), 1);
    assert_eq!(event.fields.get("user").map(|s| s.as_str()), Some("ada"));
    for reserved in ["message", "log.target", "log.module_path", "log.file", "log.line"] {
        assert!(!event.fields.contains_key(reserved));
    }
}

#[test]
fn shim_target_that_is_noise_drops_the_event() {
    let mut visitor = with_message("socket chatter");
    visitor.record_str("log.target", "tungstenite::protocol");
    assert!(normalize(raw("app", Level::Debug, visitor), Timestamp { secs: 0, nanos: 0 })
        .is_none());
}

#[test]
fn message_without_message_field_names_every_field() {
    let mut visitor = FieldVisitor::new();
    visitor.record_str("log.target", "app::legacy");
    visitor.record_u64("n", 1);
    let event = normalize(raw("log", Level::Info, visitor), Timestamp { secs: 0, nanos: 0 })
        .unwrap();
    assert_eq!(event.message, "log.target: app::legacy, n: 1");
    assert_eq!(event.fields.len(), 1);
}

#[test]
fn normalize_keeps_span_and_location() {
    let mut span_fields = FieldVisitor::new();
    span_fields.record_u64("request_id", 9);
    let span = LogCaptureLayer::extract_span_info("handle", Some(&span_fields));
    let event = normalize(
        RawEvent {
            target: "app".to_string(),
            level: Level::Trace,
            fields: with_message("m"),
            span: Some(span),
            file: Some("src/main.rs".to_string()),
            line: Some(17),
        },
        Timestamp { secs: 1, nanos: 2 },
    )
    .unwrap();
    let span: &SpanInfo = event.span.as_ref().unwrap();
    assert_eq!(span.name, "handle");
    assert_eq!(span.fields.get("request_id").map(|s| s.as_str()), Some("9"));
    assert_eq!(event.file.as_deref(), Some("src/main.rs"));
    assert_eq!(event.line, Some(17));
    assert_eq!(event.level, "TRACE");
}

#[test]
fn span_without_recorded_fields_has_none() {
    let span = LogCaptureLayer::extract_span_info("idle", None);
    assert_eq!(span.name, "idle");
    assert!(span.fields.is_empty());
}

#[test]
fn record_pushes_and_evicts() {
    let mut layer = LogCaptureLayer::new(LogStorage::with_capacity(2));
    for (i, message) in ["a", "b", "c"].iter().enumerate() {
        layer.record(
            raw("app", Level::Info, with_message(message)),
            Timestamp { secs: i as i64, nanos: 0 },
        );
    }
    let (logs, total) = layer.storage.get_filtered(&LogFilter::default(), None, None);
    assert_eq!(total, 2);
    assert_eq!(logs[0].message, "c");
    assert_eq!(logs[0].timestamp, Timestamp { secs: 2, nanos: 0 });
    assert_eq!(logs[1].message, "b");
}

#[test]
fn on_event_stamps_the_current_time() {
    let mut layer = LogCaptureLayer::new(LogStorage::new());
    layer.on_event(raw("app", Level::Info, with_message("now")));
    let (logs, _) = layer.storage.get_filtered(&LogFilter::default(), None, None);
    assert_eq!(logs.len(), 1);
    // Later than 2020-01-01 and with a valid fraction of a second.
    assert!(logs[0].timestamp.secs > 1_577_836_800);
    assert!(logs[0].timestamp.nanos < 2_000_000_000);
}

#[test]
fn noise_is_told_from_the_declared_target_first() {
    let plain = with_message("m");
    assert!(is_noise_event(&plain, "log"));
    assert!(is_noise_event(&plain, "tracing_web_console::api"));
    assert!(!is_noise_event(&plain, "app"));

    let mut declared = with_message("m");
    declared.record_str("log.target", "app::legacy");
    // The shim reports `log`, but the target that it declares is no noise.
    assert!(!is_noise_event(&declared, "log"));

    let mut chatter = with_message("m");
    chatter.record_str("log.target", "tungstenite::protocol");
    assert!(is_noise_event(&chatter, "app"));
}
