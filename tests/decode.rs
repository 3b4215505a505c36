use mcping::{
    decode_description, decode_payload, decode_status, Description, ServerStatus, StatusError,
};

const FULL: &str = r#"{
    "description": {"text": "A Minecraft Server"},
    "favicon": "data:image/png;base64,AAAA",
    "players": {"max": 20, "online": 2, "sample": [
        {"id": "4566e69f-c907-48ee-8d71-d7ba5aa00d20", "name": "thinkofdeath"},
        {"id": "0b8e4a59-9f0d-4f0a-9e1f-0d1b1c9e6d3a", "name": "notch"}
    ]},
    "version": {"name": "1.20.4", "protocol": 765}
}"#;

fn queried(payload: &[u8]) -> ServerStatus<'static> {
    let mut s = ServerStatus::new("localhost", 25565, None, None);
    s.store_response(payload.to_vec()).unwrap();
    s
}

#[test]
fn decode_before_query_fails() {
    let s = ServerStatus::new("localhost", 25565, None, None);
    assert_eq!(s.to_json().unwrap_err(), StatusError::NotYetQueried);
}

#[test]
fn decode_full_payload() {
    let r = queried(FULL.as_bytes()).to_json().unwrap();
    match &r.description {
        Description::TextDescription(t) => assert_eq!(t.text, "A Minecraft Server"),
        other => panic!("unexpected description {:?}", other),
    }
    assert_eq!(r.favicon, "data:image/png;base64,AAAA");
    assert_eq!(r.players.max, 20);
    assert_eq!(r.players.online, 2);
    assert_eq!(r.players.sample.len(), 2);
    assert_eq!(r.players.sample[0].id, "4566e69f-c907-48ee-8d71-d7ba5aa00d20");
    assert_eq!(r.players.sample[0].name, "thinkofdeath");
    assert_eq!(r.players.sample[1].name, "notch");
    assert_eq!(r.version.name, "1.20.4");
    assert_eq!(r.version.protocol, 765);
}

#[test]
fn description_raw_and_structured() {
    let raw: serde_json::Value = serde_json::from_str(r#""A Minecraft Server""#).unwrap();
    let structured: serde_json::Value =
        serde_json::from_str(r#"{"text": "A Minecraft Server"}"#).unwrap();
    let a = decode_description(&raw).unwrap();
    let b = decode_description(&structured).unwrap();
    let a_text = match a {
        Description::RawDescription(s) => s,
        other => panic!("expected the raw shape, got {:?}", other),
    };
    let b_text = match b {
        Description::TextDescription(t) => t.text,
        other => panic!("expected the structured shape, got {:?}", other),
    };
    assert_eq!(a_text, "A Minecraft Server");
    assert_eq!(a_text, b_text);
}

#[test]
fn description_of_neither_shape() {
    let v: serde_json::Value = serde_json::from_str(r#"{"extra": "x"}"#).unwrap();
    assert!(decode_description(&v).is_none());
    let v: serde_json::Value = serde_json::from_str("42").unwrap();
    assert!(decode_description(&v).is_none());
    let v: serde_json::Value = serde_json::from_str(r#"{"text": 5}"#).unwrap();
    assert!(decode_description(&v).is_none());
}

#[test]
fn raw_description_in_payload() {
    let p = r#"{"description": "Hypixel Network", "players": {"max": 1, "online": 0},
        "version": {"name": "Requires MC 1.8", "protocol": 47}}"#;
    let r = queried(p.as_bytes()).to_json().unwrap();
    match r.description {
        Description::RawDescription(s) => assert_eq!(s, "Hypixel Network"),
        other => panic!("unexpected description {:?}", other),
    }
}

#[test]
fn missing_sample_and_favicon_are_empty() {
    let p = r#"{"description": {"text": "hi"}, "players": {"max": 100, "online": 5},
        "version": {"name": "1.8", "protocol": 47}}"#;
    let r = queried(p.as_bytes()).to_json().unwrap();
    assert!(r.players.sample.is_empty());
    assert_eq!(r.favicon, "");
    assert_eq!(r.players.max, 100);
    assert_eq!(r.players.online, 5);
}

#[test]
fn missing_required_member_fails() {
    let no_version = r#"{"description": "x", "players": {"max": 1, "online": 0}}"#;
    assert_eq!(
        queried(no_version.as_bytes()).to_json().unwrap_err(),
        StatusError::JsonMalformed
    );
    let no_online = r#"{"description": "x", "players": {"max": 1},
        "version": {"name": "v", "protocol": 1}}"#;
    assert_eq!(
        queried(no_online.as_bytes()).to_json().unwrap_err(),
        StatusError::JsonMalformed
    );
    let float_protocol = r#"{"description": "x", "players": {"max": 1, "online": 0},
        "version": {"name": "v", "protocol": 1.5}}"#;
    assert_eq!(
        queried(float_protocol.as_bytes()).to_json().unwrap_err(),
        StatusError::JsonMalformed
    );
}

#[test]
fn bad_sample_entry_fails() {
    let p = r#"{"description": "x", "players": {"max": 1, "online": 1, "sample": [{"id": "a"}]},
        "version": {"name": "v", "protocol": 1}}"#;
    assert_eq!(
        queried(p.as_bytes()).to_json().unwrap_err(),
        StatusError::JsonMalformed
    );
}

#[test]
fn invalid_utf8_fails() {
    assert_eq!(
        queried(&[0x7B, 0xFF, 0x7D]).to_json().unwrap_err(),
        StatusError::InvalidUtf8
    );
    assert_eq!(decode_payload(&[0xC0, 0x80]).unwrap_err(), StatusError::InvalidUtf8);
}

#[test]
fn not_json_fails() {
    assert_eq!(
        queried(b"{not json").to_json().unwrap_err(),
        StatusError::JsonMalformed
    );
    assert_eq!(decode_payload(b"").unwrap_err(), StatusError::JsonMalformed);
}

#[test]
fn decode_status_of_parsed_value() {
    let v: serde_json::Value = serde_json::from_str(FULL).unwrap();
    let r = decode_status(&v).unwrap();
    assert_eq!(r.players.sample.len(), 2);
    let v: serde_json::Value = serde_json::from_str("[1, 2]").unwrap();
    assert_eq!(decode_status(&v).unwrap_err(), StatusError::JsonMalformed);
}
