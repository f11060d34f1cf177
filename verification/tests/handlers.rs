use match_server::{
    message_handle, read_loop_exit, request_data_handle, send_data_handle, JsonMap, JsonValue,
    MatchingState, MessageCommand, MessageError, TcpMessage, UserState,
};

fn uuid_to_string(x: u128) -> String {
    uuid::Uuid::from_u128(x).to_string()
}

const ME: u128 = 0x11111111_2222_4333_8444_555555555555;
const OTHER: u128 = 0x99999999_2222_4333_8444_555555555555;

fn object(entries: Vec<(&str, JsonValue)>) -> JsonValue {
    JsonValue::Object(map(entries.into_iter().map(|(k, v)| (k.to_string(), v)).collect()))
}

fn map(entries: Vec<(String, JsonValue)>) -> JsonMap {
    let mut m = JsonMap::new();
    for (k, v) in entries {
        let _ = m.insert(k, v);
    }
    m
}

fn join(flag: JsonValue) -> JsonMap {
    map(vec![(uuid_to_string(ME), object(vec![("matching_2", flag)]))])
}

fn name() -> String {
    "me".to_string()
}

#[test]
fn join_from_fresh_state_queues_player() {
    let mut st = UserState::new(ME);
    let out = send_data_handle(join(JsonValue::Bool(true)), ME, &name(), &mut st);
    assert_eq!(out, vec![Ok(MessageCommand::AddPlayer2(ME))]);
    assert_eq!(st.matching_state_2, MatchingState::Matching);
    assert_eq!(st.matching_state_4, MatchingState::NotSet);
}

#[test]
fn join_twice_queues_once() {
    let mut st = UserState::new(ME);
    let _ = send_data_handle(join(JsonValue::Bool(true)), ME, &name(), &mut st);
    let again = send_data_handle(join(JsonValue::Bool(true)), ME, &name(), &mut st);
    assert!(again.is_empty());
    assert_eq!(st.matching_state_2, MatchingState::Matching);
}

#[test]
fn leave_stops_matching_without_command() {
    let mut st = UserState::new(ME);
    st.matching_state_2 = MatchingState::Matching;
    let out = send_data_handle(join(JsonValue::Bool(false)), ME, &name(), &mut st);
    assert!(out.is_empty());
    assert_eq!(st.matching_state_2, MatchingState::Nothing);
    let out = send_data_handle(join(JsonValue::Bool(true)), ME, &name(), &mut st);
    assert_eq!(out, vec![Ok(MessageCommand::AddPlayer2(ME))]);
}

#[test]
fn settled_states_are_kept() {
    for settled in [MatchingState::Wait, MatchingState::PlayWait, MatchingState::Playing] {
        let mut st = UserState::new(ME);
        st.matching_state_2 = settled;
        assert!(send_data_handle(join(JsonValue::Bool(true)), ME, &name(), &mut st).is_empty());
        assert!(send_data_handle(join(JsonValue::Bool(false)), ME, &name(), &mut st).is_empty());
        assert_eq!(st.matching_state_2, settled);
    }
}

#[test]
fn bad_values_are_type_errors() {
    let mut st = UserState::new(ME);
    let out = send_data_handle(join(JsonValue::Text("yes".to_string())), ME, &name(), &mut st);
    assert_eq!(out, vec![Err(MessageError::InvalidType)]);
    assert_eq!(st.matching_state_2, MatchingState::NotSet);
    let out = send_data_handle(map(vec![(uuid_to_string(OTHER), JsonValue::Null)]), ME, &name(), &mut st);
    assert_eq!(out, vec![Err(MessageError::InvalidType)]);
}

#[test]
fn other_players_and_other_names_are_passed_over() {
    let mut st = UserState::new(ME);
    let data = map(vec![
        (uuid_to_string(OTHER), object(vec![("matching_2", JsonValue::Bool(true))])),
        (uuid_to_string(ME), object(vec![("score", JsonValue::Number("3".to_string()))])),
    ]);
    assert!(send_data_handle(data, ME, &name(), &mut st).is_empty());
    assert_eq!(st.matching_state_2, MatchingState::NotSet);
}

#[test]
fn repeated_key_keeps_the_last_value() {
    let mut st = UserState::new(ME);
    let data = map(vec![(
        uuid_to_string(ME),
        object(vec![
            ("matching_2", JsonValue::Bool(true)),
            ("matching_2", JsonValue::Bool(false)),
            ("matching_2", JsonValue::Bool(true)),
        ]),
    )]);
    let out = send_data_handle(data, ME, &name(), &mut st);
    assert_eq!(out, vec![Ok(MessageCommand::AddPlayer2(ME))]);
    assert_eq!(st.matching_state_2, MatchingState::Matching);
}

#[test]
fn default_user_state() {
    let st = UserState::default();
    assert_eq!(st.uuid, 0);
    assert_eq!(st.matching_state_2, MatchingState::NotSet);
    assert!(st.data.is_empty());
}

#[test]
fn request_data_replies() {
    let mut st = UserState::new(ME);
    let inner = map(vec![("name".to_string(), JsonValue::Text("bob".to_string()))]);
    let req = map(vec![
        ("k1".to_string(), JsonValue::Object(inner)),
        ("k2".to_string(), JsonValue::Bool(true)),
    ]);
    let out = request_data_handle(req, ME, &name(), &mut st);
    assert_eq!(out.len(), 2);
    match &out[0] {
        Ok(MessageCommand::SendTcpMessage(m)) => {
            assert_eq!(m.send_type, "data");
            assert_eq!(m.command, "push");
            assert_eq!(m.uuid, "k1");
            assert_eq!(m.send_data.get("name"), Some(&JsonValue::Text("bob".to_string())));
            assert!(m.request_data.is_empty());
        }
        other => panic!("unexpected {:?}", other),
    }
    assert_eq!(out[1], Err(MessageError::InvalidType));
    assert_eq!(st, UserState::new(ME));
}

fn message(send_type: &str, send_data: JsonMap, request_data: JsonMap) -> TcpMessage {
    TcpMessage {
        send_type: send_type.to_string(),
        command: String::new(),
        uuid: uuid_to_string(ME),
        send_data,
        request_data,
    }
}

#[test]
fn connect_message_outcome() {
    let mut st = UserState::new(ME);
    let req = map(vec![("k".to_string(), JsonValue::Null)]);
    let out = message_handle(Ok(message("connect", join(JsonValue::Bool(true)), req)), ME, &name(), &mut st);
    assert_eq!(out.first, Ok(()));
    assert_eq!(out.commands, vec![MessageCommand::AddPlayer2(ME)]);
    assert_eq!(out.second, Err(vec![MessageError::InvalidType]));
    assert_eq!(st.matching_state_2, MatchingState::Matching);
}

#[test]
fn connect_message_without_errors() {
    let mut st = UserState::new(ME);
    let out = message_handle(Ok(message("connect", JsonMap::new(), JsonMap::new())), ME, &name(), &mut st);
    assert_eq!(out.first, Ok(()));
    assert!(out.commands.is_empty());
    assert_eq!(out.second, Ok(()));
}

#[test]
fn other_message_types_are_refused() {
    let mut st = UserState::new(ME);
    let out = message_handle(Ok(message("name", join(JsonValue::Bool(true)), JsonMap::new())), ME, &name(), &mut st);
    assert_eq!(out.first, Err(MessageError::CommandNotFound));
    assert_eq!(out.second, Err(vec![]));
    assert!(out.commands.is_empty());
    assert_eq!(st.matching_state_2, MatchingState::NotSet);
    let out = message_handle(Err(MessageError::ConnectionClosed), ME, &name(), &mut st);
    assert_eq!(out.first, Err(MessageError::ConnectionClosed));
}

#[test]
fn read_loop_ends_on_unrecoverable_errors() {
    assert_eq!(
        read_loop_exit(&Err(MessageError::ConnectionClosed), &Err(vec![])),
        Some(MessageError::OtherError("connection closed".to_string()))
    );
    assert_eq!(read_loop_exit(&Err(MessageError::CommandNotFound), &Err(vec![])), None);
    assert_eq!(read_loop_exit(&Ok(()), &Ok(())), None);
    assert_eq!(
        read_loop_exit(
            &Ok(()),
            &Err(vec![MessageError::InvalidType, MessageError::FatalError("x".to_string()), MessageError::MissingUUID])
        ),
        Some(MessageError::OtherError("fatal error: x".to_string()))
    );
    assert_eq!(read_loop_exit(&Ok(()), &Err(vec![MessageError::InvalidType])), None);
}

#[test]
fn same_join_twice_queues_once() {
    let mut st = UserState::new(ME);
    let data = || {
        map(vec![(
            uuid_to_string(ME),
            object(vec![("matching_2", JsonValue::Bool(true)), ("other", JsonValue::Null)]),
        )])
    };
    let first = send_data_handle(data(), ME, &name(), &mut st);
    assert!(first.iter().any(|r| r.is_ok()));
    let second = send_data_handle(data(), ME, &name(), &mut st);
    assert!(second.iter().all(|r| r.is_err()));
    assert_eq!(st.matching_state_2, MatchingState::Matching);
}
