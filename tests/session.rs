use realtime_voice::session::{ConnectionState, Session, SessionError, DEFAULT_MODEL, DEFAULT_URL};
use serde_json::Value;

type JsonObject = serde_json::Map<String, Value>;

fn object(text: &str) -> JsonObject {
    match serde_json::from_str::<Value>(text).unwrap() {
        Value::Object(m) => m,
        _ => panic!("not an object"),
    }
}

fn connected() -> Session {
    let mut s = Session::new(None);
    s.connect(Some(DEFAULT_MODEL)).unwrap();
    assert!(s.update_session(&object("{\"voice\":\"alloy\"}")).is_ok());
    assert!(s.initial_update_sent());
    s
}

#[test]
fn second_connect_is_refused() {
    let mut s = Session::new(None);
    assert!(s.connect(None).is_ok());
    assert_eq!(s.connect(None), Err(SessionError::AlreadyConnected));
    s.initial_update_sent();
    assert_eq!(s.state(), ConnectionState::Connected);
    assert_eq!(s.connect(Some("m")), Err(SessionError::AlreadyConnected));
    assert_eq!(s.state(), ConnectionState::Connected);
}

#[test]
fn send_before_connect_is_refused() {
    let s = Session::new(None);
    assert_eq!(s.send("response.create", None).err(), Some(SessionError::NotConnected));
    assert_eq!(s.create_response().err(), Some(SessionError::NotConnected));
    assert_eq!(s.input_audio_buffer_append("AQA=").err(), Some(SessionError::NotConnected));
    assert_eq!(s.update_session(&JsonObject::new()).err(), Some(SessionError::NotConnected));
}

#[test]
fn connected_only_after_the_initial_update() {
    let mut s = Session::new(None);
    s.connect(None).unwrap();
    assert_eq!(s.state(), ConnectionState::Connecting);
    assert_eq!(s.create_response().err(), Some(SessionError::NotConnected));
    let update = s.update_session(&object("{\"voice\":\"echo\"}")).unwrap();
    assert_eq!(update.event_type, "session.update");
    // The update could not be written.
    s.connection_lost();
    assert_eq!(s.state(), ConnectionState::Disconnected);
    assert!(!s.initial_update_sent());
}

#[test]
fn disconnect_requires_a_connection() {
    let mut s = Session::new(None);
    assert_eq!(s.disconnect(), Err(SessionError::NotConnected));
    let mut s = connected();
    assert_eq!(s.disconnect(), Ok(()));
    assert_eq!(s.state(), ConnectionState::Disconnected);
    assert_eq!(s.disconnect(), Err(SessionError::NotConnected));
    assert!(s.connect(None).is_ok());
}

#[test]
fn address_carries_the_model() {
    let mut s = Session::new(None);
    assert_eq!(s.url(), DEFAULT_URL);
    let address = s.connect(Some(DEFAULT_MODEL)).unwrap();
    assert_eq!(address, "wss://api.openai.com/v1/realtime?model=gpt-4o-realtime-preview-2024-10-01");
    let mut s = Session::new(Some("wss://example.test/rt?x=1"));
    assert_eq!(s.connect(Some("a b")).unwrap(), "wss://example.test/rt?x=1&model=a+b");
    let mut s = Session::new(Some("wss://example.test/rt"));
    assert_eq!(s.connect(None).unwrap(), "wss://example.test/rt");
}

#[test]
fn invalid_address_is_refused() {
    let mut s = Session::new(Some("not a url"));
    assert_eq!(s.connect(Some("m")), Err(SessionError::InvalidAddress));
    assert_eq!(s.state(), ConnectionState::Disconnected);
}

#[test]
fn lost_connection_disconnects() {
    let mut s = connected();
    s.connection_lost();
    assert_eq!(s.state(), ConnectionState::Disconnected);
    assert!(!s.initial_update_sent());
}

#[test]
fn envelope_has_type_and_fresh_id() {
    let s = connected();
    let a = s.create_response().unwrap();
    let b = s.create_response().unwrap();
    assert_eq!(a.event_id.len(), 36);
    assert_ne!(a.event_id, b.event_id);
    assert_eq!(a.text, format!("{{\"type\":\"response.create\",\"event_id\":\"{}\"}}", a.event_id));
    let v: Value = serde_json::from_str(&a.text).unwrap();
    assert_eq!(v["type"], "response.create");
    assert_eq!(v["event_id"], a.event_id.as_str());
}

#[test]
fn data_fields_are_merged() {
    let s = connected();
    let e = s.send("custom.event", Some(&object("{ \"b\": [true], \"a\": 1 }"))).unwrap();
    assert_eq!(e.text, format!("{{\"type\":\"custom.event\",\"event_id\":\"{}\",\"a\":1,\"b\":[true]}}", e.event_id));
    let e = s.send("custom.event", Some(&JsonObject::new())).unwrap();
    assert_eq!(e.text, format!("{{\"type\":\"custom.event\",\"event_id\":\"{}\"}}", e.event_id));
}

#[test]
fn text_that_needs_escaping_is_escaped() {
    let s = connected();
    let e = s.send("odd\"type\\", Some(&object("{\"k\":\"line\\nbreak \\\"q\\\"\"}"))).unwrap();
    let v: Value = serde_json::from_str(&e.text).unwrap();
    assert_eq!(v["type"], "odd\"type\\");
    assert_eq!(v["k"], "line\nbreak \"q\"");
    let e = s.input_audio_buffer_append("a\"b").unwrap();
    let v: Value = serde_json::from_str(&e.text).unwrap();
    assert_eq!(v["audio"], "a\"b");
}

#[test]
fn audio_append_envelope() {
    let s = connected();
    let e = s.input_audio_buffer_append("AQD//w==").unwrap();
    let v: Value = serde_json::from_str(&e.text).unwrap();
    assert_eq!(v["type"], "input_audio_buffer.append");
    assert_eq!(v["audio"], "AQD//w==");
    assert_eq!(v.as_object().unwrap().len(), 3);
    let c = s.input_audio_buffer_commit().unwrap();
    assert_eq!(c.event_type, "input_audio_buffer.commit");
}

#[test]
fn session_update_and_user_message_envelopes() {
    let s = connected();
    let e = s.update_session(&object("{\"voice\":\"alloy\",\"tools\":[]}")).unwrap();
    let v: Value = serde_json::from_str(&e.text).unwrap();
    assert_eq!(v["type"], "session.update");
    assert_eq!(v["session"]["voice"], "alloy");
    let item = object("{\"item\":{\"type\":\"message\",\"role\":\"user\",\"content\":[{\"type\":\"input_text\",\"text\":\"Hi\"}]}}");
    let e = s.send("conversation.item.create", Some(&item)).unwrap();
    let v: Value = serde_json::from_str(&e.text).unwrap();
    assert_eq!(v["type"], "conversation.item.create");
    assert_eq!(v["item"]["role"], "user");
    assert_eq!(v["item"]["content"][0]["text"], "Hi");
}

#[test]
fn escapes_follow_the_json_table() {
    let s = connected();
    let e = s.input_audio_buffer_append("q\"b\\\u{8}\t\n\u{c}\r\u{1}\u{1f}\u{7f}é").unwrap();
    let expected = "\"audio\":\"q\\\"b\\\\\\b\\t\\n\\f\\r\\u0001\\u001f\u{7f}é\"}";
    assert!(e.text.ends_with(expected), "{}", e.text);
}
