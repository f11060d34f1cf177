use match_server::protocol::{announce_match_2, name_handshake_reply, uuid_check, uuid_handshake_reply};
use match_server::protocol::{
    classify_uuid_request, decode_frame, match_announcement, name_accepted_message, name_check,
    name_get, name_rejected_message, placeholder_name, player_profile, uuid_accepted_message,
    uuid_rejected_message, UuidRequest,
};
use match_server::{JsonMap, JsonValue, MessageError, TcpMessage};

fn uuid_to_string(x: u128) -> String {
    uuid::Uuid::from_u128(x).to_string()
}

const ME: u128 = 0x550e8400e29b41d4a716446655440000;

fn msg(send_type: &str, command: &str, uuid: &str, send_data: JsonMap) -> TcpMessage {
    TcpMessage {
        send_type: send_type.to_string(),
        command: command.to_string(),
        uuid: uuid.to_string(),
        send_data,
        request_data: JsonMap::new(),
    }
}

fn entry(k: &str, v: JsonValue) -> JsonMap {
    JsonMap::single(k.to_string(), v)
}

#[test]
fn frames() {
    let buf = b"{\"a\":1}xxxx";
    assert_eq!(decode_frame(buf, 0), Err(MessageError::ConnectionClosed));
    assert_eq!(decode_frame(buf, 7), Ok("{\"a\":1}".to_string()));
    match decode_frame(&[b'a', 0xff, b'b'], 3) {
        Err(MessageError::InvalidUtf8(f)) => assert_eq!(f.valid_up_to, 1),
        other => panic!("unexpected {:?}", other),
    }
}

#[test]
fn uuid_requests() {
    let text = uuid_to_string(ME);
    assert_eq!(classify_uuid_request(&msg("uuid", "get", "", JsonMap::new())), UuidRequest::Issue);
    assert_eq!(classify_uuid_request(&msg("uuid", "check", &text, JsonMap::new())), UuidRequest::Check(ME));
    assert_eq!(
        classify_uuid_request(&msg("uuid", "check", "zzz", JsonMap::new())),
        UuidRequest::Reject(MessageError::InvalidUUID)
    );
    assert_eq!(
        classify_uuid_request(&msg("uuid", "drop", "", JsonMap::new())),
        UuidRequest::Reject(MessageError::CommandNotFound)
    );
    assert_eq!(
        classify_uuid_request(&msg("name", "get", "", JsonMap::new())),
        UuidRequest::Reject(MessageError::NotFound)
    );
    assert_eq!(UuidRequest::from_parsed(None), UuidRequest::Reject(MessageError::InvalidUUID));
}

#[test]
fn name_handshake() {
    let text = uuid_to_string(ME);
    let good = msg("name", "", &text, entry(&text, JsonValue::Object(entry("name", JsonValue::Text("ann".to_string())))));
    assert_eq!(name_check(Ok(good), ME), Ok("ann".to_string()));
    let wrong_type = msg("connect", "", &text, JsonMap::new());
    assert_eq!(name_check(Ok(wrong_type), ME), Err(MessageError::CommandNotFound));
    let missing = msg("name", "", &text, entry("someone", JsonValue::Null));
    assert_eq!(name_check(Ok(missing), ME), Err(MessageError::NotFound));
    let not_object = msg("name", "", &text, entry(&text, JsonValue::Bool(true)));
    assert_eq!(name_check(Ok(not_object), ME), Err(MessageError::InvalidType));
    let no_name = msg("name", "", &text, entry(&text, JsonValue::Object(JsonMap::new())));
    assert_eq!(name_check(Ok(no_name), ME), Err(MessageError::NotFound));
    let bad_name = msg("name", "", &text, entry(&text, JsonValue::Object(entry("name", JsonValue::Number("4".to_string())))));
    assert_eq!(name_check(Ok(bad_name), ME), Err(MessageError::InvalidType));
    assert_eq!(name_check(Err(MessageError::ParseError), ME), Err(MessageError::ParseError));
}

#[test]
fn handshake_answers() {
    let text = uuid_to_string(ME);
    let ok = uuid_accepted_message(ME);
    assert_eq!((ok.send_type.as_str(), ok.command.as_str(), ok.uuid.as_str()), ("set_uuid", "ok", text.as_str()));
    let bad = uuid_rejected_message();
    assert_eq!((bad.send_type.as_str(), bad.command.as_str(), bad.uuid.as_str()), ("error", "fatal", ""));
    let set = name_accepted_message(ME, &"ann".to_string());
    assert_eq!((set.send_type.as_str(), set.command.as_str()), ("name_set", "ok"));
    assert_eq!(set.send_data, entry(&text, JsonValue::Object(entry("name", JsonValue::Text("ann".to_string())))));
    let rej = name_rejected_message(ME);
    assert_eq!((rej.send_type.as_str(), rej.command.as_str()), ("error", "warning"));
    assert_eq!(rej.send_data, entry(&text, JsonValue::Object(entry("error", JsonValue::Text("can not setting name".to_string())))));
    assert_eq!(rej.request_data, entry(&text, JsonValue::Array(vec![JsonValue::Text("name".to_string())])));
    assert_eq!(player_profile("ann".to_string()), entry("name", JsonValue::Text("ann".to_string())));
    assert_eq!(placeholder_name(), "ERRORRRRRRRRRRRRRRRRRRRRRRRRRRRR");
}

#[test]
fn looking_up_names() {
    let profile = player_profile("ann".to_string());
    assert_eq!(name_get(Some(&profile), 1, ME), Ok("ann".to_string()));
    let other = 0x00000000000040008000000000000001u128;
    match name_get(None, other, ME) {
        Err(m) => {
            assert_eq!((m.send_type.as_str(), m.command.as_str()), ("error", "warning"));
            assert_eq!(m.uuid, uuid_to_string(ME));
            let text = format!("invalid uuid: {}", uuid_to_string(other));
            assert_eq!(m.send_data, entry(&uuid_to_string(ME), JsonValue::Object(entry("error", JsonValue::Text(text)))));
        }
        Ok(n) => panic!("unexpected {}", n),
    }
    let numeric = entry("name", JsonValue::Number("3".to_string()));
    assert!(name_get(Some(&numeric), 1, ME).is_err());
}

#[test]
fn match_announcements() {
    let a = 1u128;
    let b = 2u128;
    let m = match_announcement(ME, a, "ann".to_string(), b, "bo".to_string());
    assert_eq!((m.send_type.as_str(), m.command.as_str()), ("data", "push"));
    assert_eq!(m.send_data.len(), 2);
    assert_eq!(m.send_data.get(&uuid_to_string(a)), Some(&JsonValue::Object(entry("name", JsonValue::Text("ann".to_string())))));
    assert_eq!(m.send_data.get(&uuid_to_string(b)), Some(&JsonValue::Object(entry("name", JsonValue::Text("bo".to_string())))));
    let same = match_announcement(ME, a, "ann".to_string(), a, "bo".to_string());
    assert_eq!(same.send_data.len(), 1);
    assert_eq!(same.send_data.get(&uuid_to_string(a)), Some(&JsonValue::Object(entry("name", JsonValue::Text("bo".to_string())))));
}

#[test]
fn uuid_check_outcomes() {
    match uuid_check(UuidRequest::Issue, false) {
        Ok((u, fresh)) => {
            assert!(fresh);
            assert_eq!(u & 0xf000_0000_0000_0000_0000, 0x4000_0000_0000_0000_0000);
        }
        Err(e) => panic!("unexpected {:?}", e),
    }
    assert_eq!(uuid_check(UuidRequest::Check(ME), true), Ok((ME, false)));
    assert_eq!(uuid_check(UuidRequest::Check(ME), false), Err(MessageError::NotFound));
    assert_eq!(
        uuid_check(UuidRequest::Reject(MessageError::InvalidUUID), true),
        Err(MessageError::InvalidUUID)
    );
}

#[test]
fn handshake_replies() {
    let ok = uuid_handshake_reply(&Ok(ME));
    assert_eq!((ok.send_type.as_str(), ok.command.as_str()), ("set_uuid", "ok"));
    assert_eq!(ok.uuid, uuid_to_string(ME));
    let bad = uuid_handshake_reply(&Err(MessageError::NotFound));
    assert_eq!((bad.send_type.as_str(), bad.command.as_str(), bad.uuid.as_str()), ("error", "fatal", ""));
    let (reply, name) = name_handshake_reply(Ok("ann".to_string()), ME);
    assert_eq!(name, "ann");
    assert_eq!(reply.send_type, "name_set");
    let (reply, name) = name_handshake_reply(Err(MessageError::NotFound), ME);
    assert_eq!(name, "ERRORRRRRRRRRRRRRRRRRRRRRRRRRRRR");
    assert_eq!((reply.send_type.as_str(), reply.command.as_str()), ("error", "warning"));
}

#[test]
fn match_announcement_with_missing_names() {
    let ann = player_profile("ann".to_string());
    let all = announce_match_2(ME, 1, Some(&ann), 2, None);
    assert_eq!(all.len(), 2);
    assert_eq!((all[0].send_type.as_str(), all[0].command.as_str()), ("error", "warning"));
    let last = &all[1];
    assert_eq!(last.send_data.get(&uuid_to_string(1)), Some(&JsonValue::Object(entry("name", JsonValue::Text("ann".to_string())))));
    assert_eq!(
        last.send_data.get(&uuid_to_string(2)),
        Some(&JsonValue::Object(entry("name", JsonValue::Text("ERRORRRRRRRRRRRRRRRRRRRRRRRRRRRR".to_string()))))
    );
    let both = announce_match_2(ME, 1, Some(&ann), 2, Some(&ann));
    assert_eq!(both.len(), 1);
}

#[test]
fn handshake_reply_request_data() {
    let (set, _) = name_handshake_reply(Ok("ann".to_string()), ME);
    assert!(set.request_data.is_empty());
    let (rej, _) = name_handshake_reply(Err(MessageError::NotFound), ME);
    assert_eq!(rej.request_data, entry(&uuid_to_string(ME), JsonValue::Array(vec![JsonValue::Text("name".to_string())])));
}

#[test]
fn announcement_has_only_the_two_names() {
    let ann = player_profile("ann".to_string());
    let all = announce_match_2(ME, 1, Some(&ann), 2, Some(&ann));
    let last = all.last().unwrap();
    assert!(last.request_data.is_empty());
    assert_eq!(last.send_data.len(), 2);
    let same = announce_match_2(ME, 1, None, 1, Some(&ann));
    assert_eq!(same.len(), 2);
    assert_eq!(same[1].send_data.len(), 1);
}

#[test]
fn invalid_frame_reports_longest_valid_prefix() {
    let bytes = [b'a', b'b', 0xe2, 0x28, b'c'];
    match decode_frame(&bytes, bytes.len()) {
        Err(MessageError::InvalidUtf8(f)) => {
            assert_eq!(f.valid_up_to, 2);
            assert_eq!(f.error_len, Some(1));
        }
        other => panic!("unexpected {:?}", other),
    }
}
