use match_server::{ErrorLevel, MatchingState, MessageError, QueueType};

#[test]
fn matching_state_parses_any_case() {
    assert_eq!(MatchingState::from_str("nothing"), Ok(MatchingState::Nothing));
    assert_eq!(MatchingState::from_str("Matching"), Ok(MatchingState::Matching));
    assert_eq!(MatchingState::from_str("WAIT"), Ok(MatchingState::Wait));
    assert_eq!(MatchingState::from_str("Play_Wait"), Ok(MatchingState::PlayWait));
    assert_eq!(MatchingState::from_str("playing"), Ok(MatchingState::Playing));
}

#[test]
fn matching_state_unknown_names() {
    assert_eq!(MatchingState::from_str("none"), Err(MessageError::NotFound));
    assert_eq!(MatchingState::from_str(""), Err(MessageError::NotFound));
    assert_eq!(MatchingState::from_str("playwait"), Err(MessageError::NotFound));
    assert_eq!(MatchingState::from_str(" playing"), Err(MessageError::NotFound));
}

#[test]
fn matching_state_texts_round_trip() {
    assert_eq!(MatchingState::NotSet.to_string(), "none");
    for m in [
        MatchingState::Nothing,
        MatchingState::Matching,
        MatchingState::Wait,
        MatchingState::PlayWait,
        MatchingState::Playing,
    ] {
        assert_eq!(MatchingState::from_str(&m.to_string()), Ok(m));
    }
}

#[test]
fn matching_state_default() {
    assert_eq!(MatchingState::default(), MatchingState::NotSet);
}

#[test]
fn error_level_parse_and_text() {
    assert_eq!(ErrorLevel::from_str("FATAL"), Ok(ErrorLevel::Fatal));
    assert_eq!(ErrorLevel::from_str("Warning"), Ok(ErrorLevel::Warning));
    assert_eq!(ErrorLevel::from_str("ok"), Ok(ErrorLevel::Okay));
    assert_eq!(ErrorLevel::from_str("okay"), Err(MessageError::NotFound));
    for l in [ErrorLevel::Fatal, ErrorLevel::Warning, ErrorLevel::Okay] {
        assert_eq!(ErrorLevel::from_str(&l.to_string()), Ok(l));
    }
    assert_eq!(ErrorLevel::Okay.to_string(), "ok");
}

#[test]
fn lower_casing_is_unicode() {
    // KELVIN SIGN lower-cases to the ASCII letter k.
    assert_eq!(ErrorLevel::from_str("O\u{212A}"), Ok(ErrorLevel::Okay));
    assert_eq!(MatchingState::from_str("MATCHING"), Ok(MatchingState::Matching));
}

#[test]
fn queue_types_differ() {
    assert_ne!(QueueType::Two, QueueType::Four);
}

#[test]
fn parse_through_from_str_trait() {
    assert_eq!("Playing".parse::<MatchingState>(), Ok(MatchingState::Playing));
    assert_eq!("wArNiNg".parse::<ErrorLevel>(), Ok(ErrorLevel::Warning));
    assert_eq!("x".parse::<ErrorLevel>(), Err(MessageError::NotFound));
}
