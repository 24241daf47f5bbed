use external_logger::errors::LogSystemError;
use external_logger::ingest::{
    health_version, history_reply, list_services_reply, no_route, HistoryParams, IngestBatch,
};
use external_logger::models::{IngestEntry, IngestPayload, LogEntry, LogLevel, Timestamp};
use external_logger::storage::restore_chronological;

fn entry(service: &str, level: &str, message: &str) -> IngestEntry {
    IngestEntry {
        service: service.to_string(),
        level: LogLevel::parse(level).unwrap(),
        message: message.to_string(),
        timestamp: None,
        fields: "null".to_string(),
    }
}

fn run_all(payload: IngestPayload, outcomes: &[bool]) -> (usize, usize, Vec<LogEntry>) {
    let mut batch = IngestBatch::begin(payload).unwrap();
    let mut handed = Vec::new();
    let mut i = 0;
    while let Some(e) = batch.next_entry() {
        handed.push(e);
        assert_eq!(batch.record(outcomes[i]), outcomes[i]);
        i += 1;
    }
    let s = batch.summary();
    (s.inserted, s.failed, handed)
}

#[test]
fn ingest_single_entry_returns_200() {
    let payload = IngestPayload {
        logs: vec![entry("Payments", "info", "Payment of Rs 200 processed")],
    };
    let (inserted, failed, handed) = run_all(payload, &[true]);
    assert_eq!(inserted, 1);
    assert_eq!(failed, 0);
    assert_eq!(handed[0].service, "Payments");
    assert_eq!(handed[0].level, LogLevel::Info);
}

#[test]
fn ingest_batch_of_multiple_returns_correct_count() {
    let payload = IngestPayload {
        logs: vec![
            entry("auth", "info", "login"),
            entry("auth", "warn", "retry"),
            entry("auth", "error", "failed"),
        ],
    };
    let (inserted, failed, handed) = run_all(payload, &[true, true, true]);
    assert_eq!(inserted, 3);
    assert_eq!(failed, 0);
    let messages: Vec<&str> = handed.iter().map(|e| e.message.as_str()).collect();
    assert_eq!(messages, vec!["login", "retry", "failed"]);
}

#[test]
fn ingest_counts_failed_stores() {
    let payload = IngestPayload {
        logs: vec![entry("a", "info", "x"), entry("a", "info", "y"), entry("a", "info", "z")],
    };
    let (inserted, failed, _) = run_all(payload, &[true, false, true]);
    assert_eq!(inserted, 2);
    assert_eq!(failed, 1);
}

#[test]
fn ingest_empty_batch_returns_400() {
    let err = IngestBatch::begin(IngestPayload { logs: vec![] }).err().unwrap();
    assert_eq!(err.status(), 400);
    assert_eq!(err.code(), "VALIDATION_ERROR");
    assert_eq!(err.client_message(), "Logs can't be empty");
}

#[test]
fn ingest_with_colon_in_service_name_returns_400() {
    let payload = IngestPayload { logs: vec![entry("bad:service", "info", "msg")] };
    let err = IngestBatch::begin(payload).err().unwrap();
    assert_eq!(err.status(), 400);
    assert_eq!(err.code(), "VALIDATION_ERROR");
}

#[test]
fn ingest_entry_keeps_its_own_timestamp() {
    let mut e = entry("svc", "debug", "m");
    e.timestamp = Some(Timestamp { secs: 1_700_000_000, nanos: 5 });
    e.fields = "{\"k\":1}".to_string();
    let mut batch = IngestBatch::begin(IngestPayload { logs: vec![e] }).unwrap();
    let out = batch.next_entry().unwrap();
    assert!(batch.awaiting_outcome());
    assert_eq!(out.timestamp, Timestamp { secs: 1_700_000_000, nanos: 5 });
    assert_eq!(out.fields, "{\"k\":1}");
    assert_eq!(out.id.len(), 36);
}

#[test]
fn history_returns_ingested_entries_in_order() {
    let first = LogEntry::new("billing".to_string(), LogLevel::Info, "invoice created".to_string());
    let second = LogEntry::new("billing".to_string(), LogLevel::Warn, "payment slow".to_string());
    // a stream read comes newest first; one item could not be decoded
    let read = vec![Some(second), None, Some(first)];
    let logs = restore_chronological(read);
    let reply = history_reply(Some("billing".to_string()), true, logs).ok().unwrap();
    assert_eq!(reply.count, 2);
    assert_eq!(reply.logs[0].message, "invoice created");
    assert_eq!(reply.logs[1].message, "payment slow");
    assert_eq!(reply.service.as_deref(), Some("billing"));
}

#[test]
fn history_unknown_service_returns_404() {
    let err = history_reply(Some("dummy-service".to_string()), false, vec![]).err().unwrap();
    assert_eq!(err.status(), 404);
    assert_eq!(err.code(), "NOT_FOUND");
    assert_eq!(err.client_message(), "Service dummy-service has not sent any logs");
}

#[test]
fn history_without_service_names_empty_service() {
    let err = history_reply(None, false, vec![]).err().unwrap();
    assert_eq!(err.client_message(), "Service  has not sent any logs");
}

#[test]
fn history_count_defaults_and_refuses_zero() {
    let p = HistoryParams { service: None, count: None };
    assert_eq!(p.resolved_count().ok(), Some(100));
    assert_eq!(p.lookup_name(), "");
    let p = HistoryParams { service: Some("x".to_string()), count: Some(7) };
    assert_eq!(p.resolved_count().ok(), Some(7));
    assert_eq!(p.lookup_name(), "x");
    let p = HistoryParams { service: None, count: Some(0) };
    match p.resolved_count() {
        Err(LogSystemError::Validation(m)) => assert_eq!(m, "Must be greater than zero"),
        _ => panic!("a zero count must be refused"),
    }
}

#[test]
fn unknown_route_returns_404() {
    let err = no_route("/path/something");
    assert_eq!(err.status(), 404);
    assert_eq!(err.code(), "NOT_FOUND");
    assert_eq!(err.client_message(), "No route for /path/something");
}

#[test]
fn services_are_listed_sorted() {
    let services = vec![
        "payments".to_string(),
        "auth".to_string(),
        "Zeta".to_string(),
        "billing".to_string(),
        "auth".to_string(),
        "émail".to_string(),
    ];
    let list = list_services_reply(services);
    assert_eq!(list.count, 6);
    assert_eq!(list.services, vec!["Zeta", "auth", "auth", "billing", "payments", "émail"]);
}

#[test]
fn health_version_falls_back_to_unknown() {
    assert_eq!(health_version(None), "unknown");
    assert_eq!(health_version(Some("1.2.3".to_string())), "1.2.3");
}
