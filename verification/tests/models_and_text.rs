use external_logger::config::Config;
use external_logger::errors::LogSystemError;
use external_logger::models::{IngestEntry, IngestPayload, LogEntry, LogLevel, Timestamp, WSFilter};
use external_logger::storage::{global_stream_key, service_from_stream_key, stream_key};
use external_logger::text::{parse_unsigned_decimal, str_is_blank, u64_to_decimal};
use external_logger::validation::validate_ingest_input;
use std::str::FromStr;

fn ingest(service: &str, message: &str) -> IngestEntry {
    IngestEntry {
        service: service.to_string(),
        level: LogLevel::Info,
        message: message.to_string(),
        timestamp: None,
        fields: "null".to_string(),
    }
}

fn validation_message(logs: Vec<IngestEntry>) -> Option<String> {
    match validate_ingest_input(&IngestPayload { logs }) {
        Ok(()) => None,
        Err(LogSystemError::Validation(m)) => Some(m),
        Err(LogSystemError::NotFound(_)) => panic!("validation never answers not found"),
    }
}

#[test]
fn level_names_read_back() {
    for l in [
        LogLevel::Trace,
        LogLevel::Debug,
        LogLevel::Info,
        LogLevel::Warn,
        LogLevel::Error,
        LogLevel::Fatal,
    ] {
        assert_eq!(LogLevel::from_name(l.as_str()), Ok(l));
        assert_eq!(LogLevel::from_str(l.as_str()), Ok(l));
    }
    assert_eq!(LogLevel::Warn.as_str(), "warn");
}

#[test]
fn level_parse_ignores_case() {
    assert_eq!(LogLevel::parse("INFO"), Ok(LogLevel::Info));
    assert_eq!(LogLevel::from_str("Fatal"), Ok(LogLevel::Fatal));
    assert_eq!(LogLevel::parse("Verbose"), Err("Unknown log level: verbose".to_string()));
    assert_eq!(LogLevel::from_name("INFO"), Err("Unknown log level: INFO".to_string()));
}

#[test]
fn level_rank_follows_severity() {
    assert!(LogLevel::Trace.rank() < LogLevel::Debug.rank());
    assert!(LogLevel::Warn.rank() < LogLevel::Error.rank());
    assert_eq!(LogLevel::Fatal.rank(), 5);
    assert!(LogLevel::Trace < LogLevel::Fatal);
}

#[test]
fn error_texts_and_status() {
    let v = LogSystemError::Validation("bad".to_string());
    let n = LogSystemError::NotFound("gone".to_string());
    assert_eq!(v.to_display_string(), "Validation error: bad");
    assert_eq!(n.to_display_string(), "Not found: gone");
    assert_eq!((v.status(), v.code()), (400, "VALIDATION_ERROR"));
    assert_eq!((n.status(), n.code()), (404, "NOT_FOUND"));
    assert_eq!(n.client_message(), "gone");
}

#[test]
fn validation_errors_name_the_first_problem() {
    assert_eq!(validation_message(vec![ingest("api", "ok")]), None);
    assert_eq!(
        validation_message(vec![ingest("  \t", "ok")]),
        Some("Service must not be blank".to_string())
    );
    assert_eq!(
        validation_message(vec![ingest("api", "ok"), ingest("a*b", "ok")]),
        Some("Service must not contain ':', '*', or '?' characters".to_string())
    );
    assert_eq!(
        validation_message(vec![ingest("why?", "\u{3000}")]),
        Some("Service must not contain ':', '*', or '?' characters".to_string())
    );
    assert_eq!(
        validation_message(vec![ingest(" api ", "\u{2003}\n")]),
        Some("Message must not be blank".to_string())
    );
    assert_eq!(validation_message(vec![]), Some("Logs can't be empty".to_string()));
}

#[test]
fn blank_means_only_unicode_whitespace() {
    assert!(str_is_blank(""));
    assert!(str_is_blank(" \u{85}\u{a0}\u{2028}\u{205f}"));
    assert!(!str_is_blank(" x "));
    // zero-width space is not White_Space
    assert!(!str_is_blank("\u{200b}"));
}

#[test]
fn new_entry_has_uuid_and_current_time() {
    let e = LogEntry::new("svc".to_string(), LogLevel::Error, "boom".to_string());
    assert_eq!(e.id.len(), 36);
    assert_eq!(e.id.chars().nth(14), Some('4'));
    assert_eq!(e.id.chars().nth(8), Some('-'));
    assert_eq!(e.fields, "null");
    assert!(e.timestamp.secs > 1_600_000_000);
    assert!(e.timestamp.nanos < 1_000_000_000);
    let f = LogEntry::new("svc".to_string(), LogLevel::Error, "boom".to_string());
    assert_ne!(e.id, f.id);
}

#[test]
fn filter_matching() {
    let e = LogEntry::new("auth".to_string(), LogLevel::Warn, "m".to_string());
    assert!(WSFilter::default().matches(&e));
    let f = WSFilter { service: Some("auth".to_string()), min_level: Some(LogLevel::Warn) };
    assert!(f.matches(&e));
    let f = WSFilter { service: Some("auth".to_string()), min_level: Some(LogLevel::Error) };
    assert!(!f.matches(&e));
    let f = WSFilter { service: Some("billing".to_string()), min_level: None };
    assert!(!f.matches(&e));
}

#[test]
fn config_defaults_and_parsing() {
    let c = Config::from_settings(None, None, None);
    assert_eq!(c.redis_url, "redis://127.0.0.1:6379");
    assert_eq!(c.http_port, 3000);
    assert_eq!(c.stream_max_len, 10_000);
    let c = Config::from_settings(
        Some("redis://localhost:6379".to_string()),
        Some("+8080".to_string()),
        Some("500".to_string()),
    );
    assert_eq!(c.redis_url, "redis://localhost:6379");
    assert_eq!(c.http_port, 8080);
    assert_eq!(c.stream_max_len, 500);
    let c = Config::from_settings(None, Some("70000".to_string()), Some(" 5".to_string()));
    assert_eq!(c.http_port, 3000);
    assert_eq!(c.stream_max_len, 10_000);
}

#[test]
fn decimal_parsing_matches_std() {
    for s in ["0", "65535", "65536", "+1", "+", "", "-1", "1a", "007", " 1", "99999999999999999999"] {
        let mine = parse_unsigned_decimal(s, u16::MAX as u64);
        let std = s.parse::<u16>().ok().map(|v| v as u64);
        assert_eq!(mine, std, "input {:?}", s);
    }
    assert_eq!(parse_unsigned_decimal("18446744073709551615", u64::MAX), Some(u64::MAX));
    assert_eq!(parse_unsigned_decimal("18446744073709551616", u64::MAX), None);
}

#[test]
fn decimal_formatting_matches_std() {
    for n in [0u64, 7, 10, 1234567890, u64::MAX] {
        assert_eq!(u64_to_decimal(n), n.to_string());
    }
}

#[test]
fn stream_keys() {
    assert_eq!(stream_key(Some("billing")), "logs:billing");
    assert_eq!(stream_key(None), "logs:__all__");
    assert_eq!(global_stream_key(), "logs:__all__");
    assert_eq!(service_from_stream_key("logs:billing"), Some("billing".to_string()));
    assert_eq!(service_from_stream_key("logs:__all__"), None);
    assert_eq!(service_from_stream_key("other:billing"), None);
    assert_eq!(service_from_stream_key("logs"), None);
    assert_eq!(service_from_stream_key("logs:émail"), Some("émail".to_string()));
}

#[test]
fn new_entry_at_given_reading() {
    let t = Timestamp { secs: 1_700_000_123, nanos: 42 };
    let e = LogEntry::new_at(
        "svc".to_string(),
        LogLevel::Debug,
        "hello".to_string(),
        "0b9e6c1e-2f4a-4c3b-9d2e-1a2b3c4d5e6f".to_string(),
        t,
    );
    assert_eq!(e.timestamp, t);
    assert_eq!(e.id, "0b9e6c1e-2f4a-4c3b-9d2e-1a2b3c4d5e6f");
    assert_eq!(e.fields, "null");
    assert_eq!((e.service.as_str(), e.level, e.message.as_str()), ("svc", LogLevel::Debug, "hello"));
}
