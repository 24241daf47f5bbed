use external_logger::models::{LogEntry, LogLevel, WSFilter};
use external_logger::ws::{
    lag_notice_message, validate_filter, BroadcastEvent, ClientAction, ClientMessage,
    SendAction, SocketSession,
};

fn filter(service: Option<&str>, min: Option<LogLevel>) -> WSFilter {
    WSFilter { service: service.map(|s| s.to_string()), min_level: min }
}

#[test]
fn filter_validation() {
    assert_eq!(validate_filter(&filter(None, None)), Ok(()));
    assert_eq!(validate_filter(&filter(Some(""), None)), Err("Service field must not be empty"));
    let long = "a".repeat(64);
    assert_eq!(validate_filter(&filter(Some(&long), None)), Ok(()));
    let too_long = "a".repeat(65);
    assert_eq!(
        validate_filter(&filter(Some(&too_long), None)),
        Err("Servic field must be of 64 character of fewer")
    );
    // the limit counts bytes: 33 two-byte characters are 66 bytes
    assert!(validate_filter(&filter(Some(&"é".repeat(33)), None)).is_err());
    assert!(validate_filter(&filter(Some(&"é".repeat(32)), None)).is_ok());
}

#[test]
fn session_forwards_only_matching_entries() {
    let session = SocketSession::open(filter(Some("auth"), Some(LogLevel::Warn))).ok().unwrap();
    let hit = LogEntry::new("auth".to_string(), LogLevel::Error, "x".to_string());
    let miss = LogEntry::new("auth".to_string(), LogLevel::Info, "y".to_string());
    match session.on_broadcast(BroadcastEvent::Entry(hit)) {
        SendAction::Forward(e) => assert_eq!(e.message, "x"),
        _ => panic!("a matching entry is forwarded"),
    }
    assert!(matches!(session.on_broadcast(BroadcastEvent::Entry(miss)), SendAction::Skip));
    assert!(matches!(session.on_broadcast(BroadcastEvent::Lagged(3)), SendAction::LagNotice(3)));
    assert!(matches!(session.on_broadcast(BroadcastEvent::Closed), SendAction::Stop));
}

#[test]
fn session_filter_updates() {
    assert!(SocketSession::open(filter(Some(""), None)).is_err());
    let mut session = SocketSession::open(filter(None, None)).ok().unwrap();
    let r = session.on_client_message(ClientMessage::FilterUpdate(filter(Some(""), None)));
    assert!(matches!(r, ClientAction::Rejected("Service field must not be empty")));
    assert!(session.current_filter().service.is_none());
    let r = session.on_client_message(ClientMessage::FilterUpdate(filter(Some("db"), None)));
    assert!(matches!(r, ClientAction::Updated));
    assert_eq!(session.current_filter().service.as_deref(), Some("db"));
    assert!(matches!(session.on_client_message(ClientMessage::Unparsable), ClientAction::Ignored));
    assert!(matches!(session.on_client_message(ClientMessage::Other), ClientAction::Ignored));
    assert!(matches!(session.on_client_message(ClientMessage::Close), ClientAction::Stop));
    assert_eq!(session.current_filter().service.as_deref(), Some("db"));
}

#[test]
fn lag_notice_text() {
    assert_eq!(lag_notice_message(5), "5 entries werre dropped due to slow consumption");
    assert_eq!(lag_notice_message(120), "120 entries werre dropped due to slow consumption");
}
