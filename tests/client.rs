use mgindb::client::{auth_payload_from_encoded, decimal_text, MginDBClient};

#[test]
fn new_builds_endpoint_uri() {
    let c = MginDBClient::new("ws", "127.0.0.1", 6446, "your_username", "your_password");
    assert_eq!(c.uri, "ws://127.0.0.1:6446");
    assert_eq!(c.username, "your_username");
    assert_eq!(c.password, "your_password");
}

#[test]
fn new_writes_extreme_ports() {
    assert_eq!(MginDBClient::new("wss", "db.example", 0, "u", "p").uri, "wss://db.example:0");
    assert_eq!(MginDBClient::new("ws", "h", 65535, "u", "p").uri, "ws://h:65535");
}

#[test]
fn decimal_text_writes_digits() {
    assert_eq!(decimal_text(0), "0");
    assert_eq!(decimal_text(7), "7");
    assert_eq!(decimal_text(10), "10");
    assert_eq!(decimal_text(6446), "6446");
    assert_eq!(decimal_text(65535), "65535");
}

#[test]
fn auth_payload_is_json_object_of_credentials() {
    let c = MginDBClient::new("ws", "h", 1, "user", "pass");
    assert_eq!(
        c.auth_payload(),
        "{\"username\":\"user\",\"password\":\"pass\"}"
    );
}

#[test]
fn auth_payload_escapes_credentials() {
    let c = MginDBClient::new("ws", "h", 1, "a\"b", "c\\d");
    assert_eq!(
        c.auth_payload(),
        "{\"username\":\"a\\\"b\",\"password\":\"c\\\\d\"}"
    );
}

#[test]
fn auth_payload_from_encoded_frames_fields() {
    assert_eq!(
        auth_payload_from_encoded("\"u\"", "\"p\""),
        "{\"username\":\"u\",\"password\":\"p\"}"
    );
}

#[test]
fn auth_payload_escapes_control_characters() {
    let c = MginDBClient::new("ws", "h", 1, "a\nb\u{1}", "t\tz");
    assert_eq!(
        c.auth_payload(),
        "{\"username\":\"a\\nb\\u0001\",\"password\":\"t\\tz\"}"
    );
}
