use match_server::client::connect_request_for;
use match_server::client::{
    connect_uuid_request, matching_request, name_request, uuid_get_request, uuid_request_frame,
};
use match_server::{JsonMap, JsonValue};

#[test]
fn uuid_request_frames() {
    let mut expected = vec![1u8];
    expected.extend_from_slice(&258usize.to_le_bytes());
    assert_eq!(uuid_request_frame(258), expected);
    let mut zero = vec![1u8];
    zero.extend_from_slice(&0usize.to_le_bytes());
    assert_eq!(uuid_request_frame(0), zero);
}

#[test]
fn reconnect_requests() {
    assert_eq!(connect_uuid_request(b"  abc-1 \n"), "CONNECT_UUID.abc-1");
    assert_eq!(connect_uuid_request(b""), "CONNECT_UUID.");
    assert_eq!(connect_uuid_request(&[b'x', 0xff]), "CONNECT_UUID.x\u{fffd}");
}

#[test]
fn client_messages() {
    let g = uuid_get_request();
    assert_eq!((g.send_type.as_str(), g.command.as_str(), g.uuid.as_str()), ("uuid", "get", ""));
    let id = "u-1".to_string();
    let n = name_request(&id, "test".to_string());
    assert_eq!(n.send_type, "name");
    assert_eq!(n.uuid, id);
    let inner = JsonMap::single("name".to_string(), JsonValue::Text("test".to_string()));
    assert_eq!(n.send_data, JsonMap::single(id.clone(), JsonValue::Object(inner)));
    let c = matching_request(&id, true);
    assert_eq!(c.send_type, "connect");
    let inner = JsonMap::single("matching_2".to_string(), JsonValue::Bool(true));
    assert_eq!(c.send_data, JsonMap::single(id, JsonValue::Object(inner)));
}

#[test]
fn reconnect_request_from_text() {
    assert_eq!(connect_request_for("\u{3000}id\t"), "CONNECT_UUID.id");
}
