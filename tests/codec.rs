use chat_relay::{frame_envelope, DataType, MessagePayload};

#[test]
fn frame_envelope_places_fields() {
    assert_eq!(
        frame_envelope(DataType::Disconnect, "\"x\""),
        "{\"content\":\"x\",\"kind\":\"Disconnect\"}"
    );
}

#[test]
fn payload_to_json() {
    let p = MessagePayload { kind: DataType::Connect, content: "a\\b".to_string() };
    assert_eq!(p.to_json(), "{\"content\":\"a\\\\b\",\"kind\":\"Connect\"}");
    let e = MessagePayload { kind: DataType::Message, content: String::new() };
    assert_eq!(e.to_json(), "{\"content\":\"\",\"kind\":\"Message\"}");
}
