use match_server::connect;
use match_server::text::Utf8Failure;
use match_server::MessageError;

#[test]
fn unrecoverable_variants() {
    assert!(MessageError::UndefinedError.unrecoverable_error());
    assert!(MessageError::MissingUUID.unrecoverable_error());
    assert!(MessageError::ConnectionClosed.unrecoverable_error());
    assert!(MessageError::FatalError("disk".to_string()).unrecoverable_error());
    assert!(!MessageError::NotFound.unrecoverable_error());
    assert!(!MessageError::InvalidType.unrecoverable_error());
    assert!(!MessageError::OtherError("x".to_string()).unrecoverable_error());
    assert!(!MessageError::DeserializeError("x".to_string()).unrecoverable_error());
}

#[test]
fn unrecoverable_lists() {
    assert!(!MessageError::Errors(vec![]).unrecoverable_error());
    assert!(!MessageError::Errors(vec![MessageError::NotFound, MessageError::TooLong]).unrecoverable_error());
    assert!(MessageError::Errors(vec![MessageError::NotFound, MessageError::ConnectionClosed]).unrecoverable_error());
    let nested = MessageError::Errors(vec![
        MessageError::InvalidType,
        MessageError::Errors(vec![MessageError::MissingUUID]),
    ]);
    assert!(nested.unrecoverable_error());
}

#[test]
fn error_texts() {
    assert_eq!(MessageError::NotFound.to_string(), "message not found");
    assert_eq!(MessageError::NotLongEnough.to_string(), "message not long enough");
    assert_eq!(MessageError::CommandNotFound.to_string(), "command not found");
    assert_eq!(MessageError::CommunicationError.to_string(), "communication error");
    assert_eq!(MessageError::UndefinedError.to_string(), "undefined error");
    assert_eq!(MessageError::TooLong.to_string(), "message too long");
    assert_eq!(MessageError::EmptyCommand.to_string(), "empty command");
    assert_eq!(MessageError::InvalidUUID.to_string(), "invalid UUID format");
    assert_eq!(MessageError::MissingUUID.to_string(), "UUID is missing");
    assert_eq!(MessageError::ParseError.to_string(), "parse error");
    assert_eq!(MessageError::ConnectionClosed.to_string(), "connection closed");
    assert_eq!(MessageError::InvalidType.to_string(), "invalid type");
    assert_eq!(MessageError::DeserializeError("EOF".to_string()).to_string(), "deserialize error: EOF");
    assert_eq!(MessageError::OtherError("boom".to_string()).to_string(), "boom");
    assert_eq!(MessageError::FatalError("boom".to_string()).to_string(), "fatal error: boom");
}

#[test]
fn utf8_error_texts() {
    let bad = MessageError::InvalidUtf8(Utf8Failure { valid_up_to: 5, error_len: Some(2) });
    assert_eq!(bad.to_string(), "invalid UTF8: invalid utf-8 sequence of 2 bytes from index 5");
    let cut = MessageError::InvalidUtf8(Utf8Failure { valid_up_to: 13, error_len: None });
    assert_eq!(cut.to_string(), "invalid UTF8: incomplete utf-8 byte sequence from index 13");
}

#[test]
fn utf8_error_text_matches_std() {
    let bytes: Vec<u8> = vec![b'a', b'b', 0xff, b'c'];
    let std_error = std::str::from_utf8(&bytes).unwrap_err();
    let ours = match_server::protocol::decode_frame(&bytes, bytes.len()).unwrap_err();
    assert_eq!(ours.to_string(), format!("invalid UTF8: {}", std_error));
}

#[test]
fn error_list_text() {
    let list = MessageError::Errors(vec![MessageError::NotFound, MessageError::TooLong]);
    assert_eq!(list.to_string(), "message not found message too long ");
    assert_eq!(MessageError::Errors(vec![]).to_string(), "");
}

#[test]
fn connect_error_texts() {
    assert_eq!(connect::MessageError::NotFound.to_string(), "message not found");
    assert_eq!(connect::MessageError::NotLongEnough.to_string(), "message not long enough");
    assert_eq!(connect::MessageError::CommandNotFound.to_string(), "command not found");
    assert_eq!(connect::MessageError::CommunicationError.to_string(), "communication error");
    assert_eq!(connect::MessageError::UndefinedError.to_string(), "undefined error");
    assert_eq!(connect::MessageError::TooLong.to_string(), "too long");
}
