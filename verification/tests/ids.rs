use match_server::protocol::{classify_uuid_request, uuid_accepted_message, uuid_check, UuidRequest};
use match_server::{JsonMap, TcpMessage};

fn check_message(uuid: &str) -> TcpMessage {
    TcpMessage {
        send_type: "uuid".to_string(),
        command: "check".to_string(),
        uuid: uuid.to_string(),
        send_data: JsonMap::new(),
        request_data: JsonMap::new(),
    }
}

#[test]
fn uuid_text_is_hyphenated_lower_case() {
    assert_eq!(
        uuid_accepted_message(0x550e8400e29b41d4a716446655440000).uuid,
        "550e8400-e29b-41d4-a716-446655440000"
    );
    assert_eq!(uuid_accepted_message(0).uuid, "00000000-0000-0000-0000-000000000000");
    assert_eq!(uuid_accepted_message(u128::MAX).uuid, "ffffffff-ffff-ffff-ffff-ffffffffffff");
}

#[test]
fn uuid_parsing() {
    assert_eq!(
        classify_uuid_request(&check_message("550e8400-e29b-41d4-a716-446655440000")),
        UuidRequest::Check(0x550e8400e29b41d4a716446655440000)
    );
    assert_eq!(
        classify_uuid_request(&check_message("550E8400E29B41D4A716446655440000")),
        UuidRequest::Check(0x550e8400e29b41d4a716446655440000)
    );
    assert_eq!(
        classify_uuid_request(&check_message("not a uuid")),
        UuidRequest::Reject(match_server::MessageError::InvalidUUID)
    );
}

#[test]
fn uuid_round_trip() {
    for x in [1u128, 0xdeadbeef, u128::MAX - 5, 0x0123456789abcdef0123456789abcdef] {
        let text = uuid_accepted_message(x).uuid;
        assert_eq!(classify_uuid_request(&check_message(&text)), UuidRequest::Check(x));
    }
}

#[test]
fn fresh_uuids_are_version_4() {
    let a = uuid_check(UuidRequest::Issue, false).unwrap().0;
    let b = uuid_check(UuidRequest::Issue, false).unwrap().0;
    assert_ne!(a, b);
    assert_eq!(a & 0xf000_0000_0000_0000_0000, 0x4000_0000_0000_0000_0000);
    assert_eq!(a & 0xc000_0000_0000_0000, 0x8000_0000_0000_0000);
}
