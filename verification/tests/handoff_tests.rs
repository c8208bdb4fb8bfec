use afd::handoff::get_handoff_ttl;
use afd::handoff::get_handoff_ttl_at;
use afd::handoff::is_handoff;
use afd::handoff::is_handoff_expired;
use afd::handoff::is_handoff_expired_at;
use afd::handoff::is_handoff_protocol;
use afd::handoff::HandoffCredentials;
use afd::handoff::HandoffMetadata;
use afd::handoff::HandoffProtocol;
use afd::handoff::HandoffResult;
use afd::handoff::HeaderMap;
use afd::handoff::ReconnectPolicy;
use afd::json::JsonMap;
use afd::json::JsonValue;

fn s(text: &str) -> JsonValue {
    JsonValue::String(text.to_string())
}

fn obj(members: Vec<(&str, JsonValue)>) -> JsonValue {
    let mut map = JsonMap::new();
    for (key, value) in members {
        map.insert(key, value);
    }
    JsonValue::Object(map)
}

#[test]
fn test_handoff_result_builder() {
    let handoff = HandoffResult::websocket("wss://example.com/ws")
        .with_credentials(HandoffCredentials::new().with_token("test-token"))
        .with_metadata(HandoffMetadata::new().with_description("Test connection"));

    assert_eq!(handoff.protocol, HandoffProtocol::Websocket);
    assert_eq!(handoff.endpoint, "wss://example.com/ws");
    assert_eq!(handoff.credentials.as_ref().unwrap().token, Some("test-token".to_string()));
    assert_eq!(
        handoff.metadata.as_ref().unwrap().description,
        Some("Test connection".to_string())
    );
}

#[test]
fn test_handoff_credentials_builder() {
    let creds = HandoffCredentials::new()
        .with_token("jwt-token")
        .with_session_id("session-123")
        .with_header("X-Custom", "value");

    assert_eq!(creds.token, Some("jwt-token".to_string()));
    assert_eq!(creds.session_id, Some("session-123".to_string()));
    assert_eq!(creds.headers.as_ref().unwrap().get("X-Custom"), Some(&"value".to_string()));
}

#[test]
fn test_handoff_metadata_builder() {
    let meta = HandoffMetadata::new()
        .with_expected_latency(50)
        .with_capability("streaming")
        .with_capability("bidirectional")
        .with_reconnect(ReconnectPolicy::default());

    assert_eq!(meta.expected_latency, Some(50));
    assert_eq!(
        meta.capabilities,
        Some(vec!["streaming".to_string(), "bidirectional".to_string()])
    );
    assert!(meta.reconnect.is_some());
}

#[test]
fn test_reconnect_policy() {
    let policy = ReconnectPolicy::new(true).with_max_attempts(5).with_backoff_ms(2000);

    assert!(policy.allowed);
    assert_eq!(policy.max_attempts, Some(5));
    assert_eq!(policy.backoff_ms, Some(2000));

    let no_reconnect = ReconnectPolicy::no_reconnect();
    assert!(!no_reconnect.allowed);
}

#[test]
fn test_is_handoff_type_guard() {
    let valid = obj(vec![("protocol", s("websocket")), ("endpoint", s("wss://example.com"))]);
    assert!(is_handoff(&valid));

    let missing_protocol = obj(vec![("endpoint", s("wss://example.com"))]);
    assert!(!is_handoff(&missing_protocol));

    let missing_endpoint = obj(vec![("protocol", s("websocket"))]);
    assert!(!is_handoff(&missing_endpoint));
}

#[test]
fn test_is_handoff_protocol() {
    assert!(is_handoff_protocol("websocket"));
    assert!(is_handoff_protocol("WEBSOCKET"));
    assert!(is_handoff_protocol("webrtc"));
    assert!(is_handoff_protocol("sse"));
    assert!(is_handoff_protocol("http-stream"));
    assert!(!is_handoff_protocol("invalid"));
    assert!(!is_handoff_protocol("custom"));
}

#[test]
fn test_handoff_expired() {
    let handoff = HandoffResult::websocket("wss://example.com");
    assert!(!is_handoff_expired(&handoff));

    let handoff = HandoffResult::websocket("wss://example.com")
        .with_metadata(HandoffMetadata::new().with_description("test"));
    assert!(!is_handoff_expired(&handoff));

    let handoff = HandoffResult::websocket("wss://example.com")
        .with_metadata(HandoffMetadata::new().with_expires_at("2020-01-01T00:00:00Z"));
    assert!(is_handoff_expired(&handoff));

    let handoff = HandoffResult::websocket("wss://example.com")
        .with_metadata(HandoffMetadata::new().with_expires_at("2099-12-31T23:59:59Z"));
    assert!(!is_handoff_expired(&handoff));
}

#[test]
fn test_get_handoff_ttl() {
    let handoff = HandoffResult::websocket("wss://example.com");
    assert!(get_handoff_ttl(&handoff).is_none());

    let handoff = HandoffResult::websocket("wss://example.com")
        .with_metadata(HandoffMetadata::new().with_expires_at("2020-01-01T00:00:00Z"));
    assert!(get_handoff_ttl(&handoff).is_none());

    let handoff = HandoffResult::websocket("wss://example.com")
        .with_metadata(HandoffMetadata::new().with_expires_at("2099-12-31T23:59:59Z"));
    assert!(get_handoff_ttl(&handoff).is_some());
    assert!(get_handoff_ttl(&handoff).unwrap() > 0);
}

#[test]
fn handoff_expiry_against_a_given_instant() {
    let handoff = HandoffResult::sse("https://example.com/events")
        .with_metadata(HandoffMetadata::new().with_expires_at("2020-01-01T00:00:00Z"));
    let end: i64 = 1_577_836_800;

    assert!(!is_handoff_expired_at(&handoff, (end, 0)));
    assert!(is_handoff_expired_at(&handoff, (end, 1)));
    assert!(is_handoff_expired_at(&handoff, (end + 1, 0)));
    assert!(!is_handoff_expired_at(&handoff, (end - 1, 999_999_999)));

    assert_eq!(get_handoff_ttl_at(&handoff, (end - 90, 0)), Some(90));
    assert_eq!(get_handoff_ttl_at(&handoff, (end - 1, 999_999_999)), Some(1));
    assert_eq!(get_handoff_ttl_at(&handoff, (end, 0)), None);
    assert_eq!(get_handoff_ttl_at(&handoff, (end + 5, 0)), None);
}

#[test]
fn handoff_expiry_reads_offsets_and_rejects_other_text() {
    let shifted = HandoffResult::webrtc("peer")
        .with_metadata(HandoffMetadata::new().with_expires_at("2020-01-01T02:00:00+02:00"));
    assert_eq!(get_handoff_ttl_at(&shifted, (1_577_836_800 - 10, 0)), Some(10));

    let unreadable = HandoffResult::webrtc("peer")
        .with_metadata(HandoffMetadata::new().with_expires_at("tomorrow"));
    assert!(!is_handoff_expired_at(&unreadable, (i64::MAX, 0)));
    assert_eq!(get_handoff_ttl_at(&unreadable, (i64::MIN, 0)), None);
    assert!(!is_handoff_expired(&unreadable));
    assert!(get_handoff_ttl(&unreadable).is_none());
}

#[test]
fn handoff_protocol_names() {
    assert_eq!(HandoffProtocol::Websocket.as_str(), "websocket");
    assert_eq!(HandoffProtocol::Webrtc.as_str(), "webrtc");
    assert_eq!(HandoffProtocol::Sse.as_str(), "sse");
    assert_eq!(HandoffProtocol::HttpStream.as_str(), "http-stream");
    assert_eq!(HandoffProtocol::Custom("mqtt".to_string()).as_str(), "mqtt");
    assert!(is_handoff_protocol("Http-Stream"));
    assert!(!is_handoff_protocol(""));
}

#[test]
fn header_maps_compare_as_maps() {
    let mut a = HeaderMap::new();
    a.insert("A", "1");
    a.insert("B", "2");
    let mut b = HeaderMap::new();
    b.insert("B", "0");
    b.insert("A", "1");
    b.insert("B", "2");
    assert!(a == b);
    assert_eq!(b.get("B"), Some(&"2".to_string()));
    assert_eq!(b.get("C"), None);

    let mut c = HeaderMap::new();
    c.insert("A", "1");
    assert!(a != c);
    assert!(c != a);

    let with = HandoffCredentials::new().with_headers(a).with_header("B", "3");
    assert_eq!(with.headers.as_ref().unwrap().get("B"), Some(&"3".to_string()));
    assert_eq!(with.headers.as_ref().unwrap().get("A"), Some(&"1".to_string()));
}
