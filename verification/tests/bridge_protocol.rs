use dawmcp::bridge::{
    heartbeat_fresh, heartbeat_missing_message, poll_step, request_payload, response_outcome,
    response_result, BridgeSession, PollStep, ResponseFields,
};

#[test]
fn new_session_has_hex_client_id() {
    let session = BridgeSession::new();
    let id = session.client_id();
    assert_eq!(id.len(), 8);
    assert!(id.chars().all(|c| c.is_ascii_digit() || ('a'..='f').contains(&c)));
    assert_eq!(session.counter(), 0);
}

#[test]
fn concurrent_sessions_pick_distinct_client_ids() {
    let a = BridgeSession::new();
    let b = BridgeSession::new();
    assert_ne!(a.client_id(), b.client_id());
}

#[test]
fn request_ids_count_up() {
    let mut session = BridgeSession::new();
    let client = session.client_id().to_string();
    let first = session.next_request();
    let second = session.next_request();
    assert_eq!(first.id, format!("{client}-1"));
    assert_eq!(second.id, format!("{client}-2"));
    assert_eq!(first.request_file, format!("req_{client}-1.json"));
    assert_eq!(first.response_file, format!("resp_{client}-1.json"));
    assert_eq!(session.counter(), 2);
    for _ in 0..9 {
        session.next_request();
    }
    assert_eq!(session.next_request().id, format!("{client}-12"));
}

#[test]
fn payload_is_json_with_sorted_keys() {
    let payload = request_payload("ab12cd34-1", "ping", "{}");
    assert_eq!(payload, r#"{"args":{},"id":"ab12cd34-1","op":"ping"}"#);
    let value: serde_json::Value = serde_json::from_str(&payload).unwrap();
    assert_eq!(value["op"], "ping");
}

#[test]
fn payload_escapes_op_text() {
    let payload = request_payload("x-1", "a\"b\\c\nd\u{1}", r#"{"n":1}"#);
    assert_eq!(payload, "{\"args\":{\"n\":1},\"id\":\"x-1\",\"op\":\"a\\\"b\\\\c\\nd\\u0001\"}");
    let value: serde_json::Value = serde_json::from_str(&payload).unwrap();
    assert_eq!(value["op"], "a\"b\\c\nd\u{1}");
}

#[test]
fn heartbeat_freshness_threshold() {
    assert!(heartbeat_fresh(Some(0)));
    assert!(heartbeat_fresh(Some(1_999_999_999)));
    assert!(!heartbeat_fresh(Some(2_000_000_000)));
    assert!(!heartbeat_fresh(None));
}

#[test]
fn no_heartbeat_message_names_the_file() {
    let m = heartbeat_missing_message("/b/heartbeat.txt");
    assert!(m.contains("heartbeat"));
    assert!(m.starts_with("REAPER bridge heartbeat not found or stale at /b/heartbeat.txt. Is REAPER running"));
}

#[test]
fn poll_steps() {
    assert!(matches!(poll_step("ping", "c-1", Some(Some("x".to_string())), true), PollStep::Respond(c) if c == "x"));
    assert!(matches!(poll_step("ping", "c-1", Some(None), false), PollStep::Sleep));
    assert!(matches!(poll_step("ping", "c-1", Some(None), true), PollStep::TimedOut(m) if m == "timed out waiting for bridge response to op 'ping' (id=c-1)"));
    assert!(matches!(poll_step("ping", "c-1", None, false), PollStep::Sleep));
    match poll_step("ping", "c-1", None, true) {
        PollStep::TimedOut(m) => assert_eq!(m, "timed out waiting for bridge response to op 'ping' (id=c-1)"),
        other => panic!("unexpected {other:?}"),
    }
}

#[test]
fn response_outcomes() {
    let ok = ResponseFields { ok: Some(true), error_json: None, result_json: Some("{\"pong\":true}".to_string()) };
    assert_eq!(response_outcome("ping", "{}", &Some(ok)).unwrap(), "{\"pong\":true}");
    let ok_no_result = ResponseFields { ok: Some(true), error_json: None, result_json: None };
    assert_eq!(response_outcome("ping", "{}", &Some(ok_no_result)).unwrap(), "{}");
    let failed = ResponseFields {
        ok: Some(false),
        error_json: Some("\"unknown op nonexistent_op\"".to_string()),
        result_json: None,
    };
    let err = response_outcome("nonexistent_op", "{}", &Some(failed)).unwrap_err();
    assert!(err.contains("unknown op"));
    assert_eq!(err, "REAPER bridge error for op 'nonexistent_op': \"unknown op nonexistent_op\"");
    let no_ok = ResponseFields { ok: None, error_json: None, result_json: None };
    assert_eq!(response_outcome("p", "{}", &Some(no_ok)).unwrap_err(), "REAPER bridge error for op 'p': null");
    assert_eq!(
        response_outcome("p", "not \"json\"", &None).unwrap_err(),
        "malformed response from bridge: \"not \\\"json\\\"\""
    );
}

#[test]
fn response_results_parse_the_text() {
    assert_eq!(response_result("ping", r#"{"id":"a-1","ok":true,"result":{"pong":true}}"#).unwrap(), r#"{"pong":true}"#);
    assert_eq!(response_result("ping", r#"{"id":"a-1","ok":true}"#).unwrap(), "{}");
    assert_eq!(response_result("ping", r#"{"ok":true,"result":null}"#).unwrap(), "null");
    assert_eq!(
        response_result("x", r#"{"id":"a-1","ok":false,"error":"unknown op x"}"#).unwrap_err(),
        "REAPER bridge error for op 'x': \"unknown op x\""
    );
    assert_eq!(response_result("x", r#"{"ok":"yes"}"#).unwrap_err(), "REAPER bridge error for op 'x': null");
    assert_eq!(response_result("x", r#"[1,2]"#).unwrap_err(), "REAPER bridge error for op 'x': null");
    assert_eq!(response_result("x", "{not json").unwrap_err(), "malformed response from bridge: \"{not json\"");
}

#[test]
fn session_from_uuid_takes_first_eight_digits() {
    let mut session = BridgeSession::from_uuid_simple("0123456789abcdef0123456789abcdef");
    assert_eq!(session.client_id(), "01234567");
    assert_eq!(session.counter(), 0);
    assert_eq!(session.next_request().id, "01234567-1");
}
