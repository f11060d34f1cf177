use vstd::prelude::*;

use crate::error::MessageError;
use crate::text::ascii_lower_char;
use crate::text::ascii_lowercase;
use crate::text::text_eq;
use crate::text::to_lowercase;
use crate::text::unicode_lowercase;
use vstd::utf8::is_ascii_chars;

verus! {

/// The two sizes of match that players can queue for.
#[derive(Debug, Clone, Copy, PartialEq, Eq, Structural)]
pub enum QueueType {
    Two,
    Four,
}

/// Where a player stands in matchmaking.
#[derive(Debug, Clone, Copy, PartialEq, Eq, Structural)]
pub enum MatchingState {
    NotSet,
    Nothing,
    Matching,
    Wait,
    PlayWait,
    Playing,
}

impl Default for MatchingState {
    fn default() -> (r: Self)
        ensures
            r == MatchingState::NotSet,
    {
        MatchingState::NotSet
    }
}

/// The matching state that a lower-case name stands for, if any.
pub open spec fn matching_state_named(t: Seq<char>) -> Option<MatchingState> {
    if t == "nothing"@ {
        Some(MatchingState::Nothing)
    } else if t == "matching"@ {
        Some(MatchingState::Matching)
    } else if t == "wait"@ {
        Some(MatchingState::Wait)
    } else if t == "play_wait"@ {
        Some(MatchingState::PlayWait)
    } else if t == "playing"@ {
        Some(MatchingState::Playing)
    } else {
        None
    }
}

/// The result of parsing a lower-cased name: the state it names, or `NotFound`.
pub open spec fn matching_state_parse(t: Seq<char>) -> Result<MatchingState, MessageError> {
    match matching_state_named(t) {
        Some(m) => Ok(m),
        None => Err(MessageError::NotFound),
    }
}

/// The display text of a matching state.
pub open spec fn matching_state_text(m: MatchingState) -> Seq<char> {
    match m {
        MatchingState::NotSet => "none"@,
        MatchingState::Nothing => "nothing"@,
        MatchingState::Matching => "matching"@,
        MatchingState::Wait => "wait"@,
        MatchingState::PlayWait => "play_wait"@,
        MatchingState::Playing => "playing"@,
    }
}

impl MatchingState {
    /// Parses a name that is already lower-case.
    pub fn from_lowercase(t: &str) -> (r: Result<MatchingState, MessageError>)
        ensures
            r == matching_state_parse(t@),
    {
        if text_eq(t, "nothing") {
            Ok(MatchingState::Nothing)
        } else if text_eq(t, "matching") {
            Ok(MatchingState::Matching)
        } else if text_eq(t, "wait") {
            Ok(MatchingState::Wait)
        } else if text_eq(t, "play_wait") {
            Ok(MatchingState::PlayWait)
        } else if text_eq(t, "playing") {
            Ok(MatchingState::Playing)
        } else {
            Err(MessageError::NotFound)
        }
    }

    /// Parses a state name in any case: the name is lower-cased first.
    pub fn from_str(s: &str) -> (r: Result<MatchingState, MessageError>)
        ensures
            r == matching_state_parse(unicode_lowercase(s@)),
            is_ascii_chars(s@) ==> r == matching_state_parse(ascii_lowercase(s@)),
    {
        let lower = to_lowercase(s);
        MatchingState::from_lowercase(lower.as_str())
    }

    /// The display text of this state.
    pub fn to_string(&self) -> (r: String)
        ensures
            r@ == matching_state_text(*self),
    {
        let t = match self {
            MatchingState::NotSet => "none",
            MatchingState::Nothing => "nothing",
            MatchingState::Matching => "matching",
            MatchingState::Wait => "wait",
            MatchingState::PlayWait => "play_wait",
            MatchingState::Playing => "playing",
        };
        t.to_owned()
    }
}

impl std::str::FromStr for MatchingState {
    type Err = MessageError;

    fn from_str(s: &str) -> (r: Result<MatchingState, MessageError>)
        ensures
            r == matching_state_parse(unicode_lowercase(s@)),
            is_ascii_chars(s@) ==> r == matching_state_parse(ascii_lowercase(s@)),
    {
        MatchingState::from_str(s)
    }
}

/// How serious a reported problem is.
#[derive(Debug, Clone, Copy, PartialEq, Eq, Structural)]
pub enum ErrorLevel {
    Fatal,
    Warning,
    Okay,
}

/// The error level that a lower-case name stands for, if any.
pub open spec fn error_level_named(t: Seq<char>) -> Option<ErrorLevel> {
    if t == "fatal"@ {
        Some(ErrorLevel::Fatal)
    } else if t == "warning"@ {
        Some(ErrorLevel::Warning)
    } else if t == "ok"@ {
        Some(ErrorLevel::Okay)
    } else {
        None
    }
}

/// The result of parsing a lower-cased name: the level it names, or `NotFound`.
pub open spec fn error_level_parse(t: Seq<char>) -> Result<ErrorLevel, MessageError> {
    match error_level_named(t) {
        Some(l) => Ok(l),
        None => Err(MessageError::NotFound),
    }
}

/// The display text of an error level.
pub open spec fn error_level_text(l: ErrorLevel) -> Seq<char> {
    match l {
        ErrorLevel::Fatal => "fatal"@,
        ErrorLevel::Warning => "warning"@,
        ErrorLevel::Okay => "ok"@,
    }
}

impl ErrorLevel {
    /// Parses a name that is already lower-case.
    pub fn from_lowercase(t: &str) -> (r: Result<ErrorLevel, MessageError>)
        ensures
            r == error_level_parse(t@),
    {
        if text_eq(t, "fatal") {
            Ok(ErrorLevel::Fatal)
        } else if text_eq(t, "warning") {
            Ok(ErrorLevel::Warning)
        } else if text_eq(t, "ok") {
            Ok(ErrorLevel::Okay)
        } else {
            Err(MessageError::NotFound)
        }
    }

    /// Parses a level name in any case: the name is lower-cased first.
    pub fn from_str(s: &str) -> (r: Result<ErrorLevel, MessageError>)
        ensures
            r == error_level_parse(unicode_lowercase(s@)),
            is_ascii_chars(s@) ==> r == error_level_parse(ascii_lowercase(s@)),
    {
        let lower = to_lowercase(s);
        ErrorLevel::from_lowercase(lower.as_str())
    }

    /// The display text of this level.
    pub fn to_string(&self) -> (r: String)
        ensures
            r@ == error_level_text(*self),
    {
        let t = match self {
            ErrorLevel::Fatal => "fatal",
            ErrorLevel::Warning => "warning",
            ErrorLevel::Okay => "ok",
        };
        t.to_owned()
    }
}

impl std::str::FromStr for ErrorLevel {
    type Err = MessageError;

    fn from_str(s: &str) -> (r: Result<ErrorLevel, MessageError>)
        ensures
            r == error_level_parse(unicode_lowercase(s@)),
            is_ascii_chars(s@) ==> r == error_level_parse(ascii_lowercase(s@)),
    {
        ErrorLevel::from_str(s)
    }
}

/// A text with no upper-case ASCII letter is its own ASCII lower-case form.
proof fn lemma_ascii_lowercase_fixed(t: Seq<char>)
    requires
        forall|i: int| 0 <= i < t.len() ==> !('A' <= #[trigger] t[i] <= 'Z'),
    ensures
        ascii_lowercase(t) == t,
{
    assert(ascii_lowercase(t) =~= t);
}

/// Parsing the display text of a matching state gives the state back, for
/// every state but `None`, whose text `"none"` names no state.
pub proof fn lemma_matching_state_round_trip(m: MatchingState)
    requires
        m != MatchingState::NotSet,
    ensures
        is_ascii_chars(matching_state_text(m)),
        matching_state_parse(ascii_lowercase(matching_state_text(m))) == Ok::<MatchingState, MessageError>(m),
{
    reveal_strlit("nothing");
    reveal_strlit("matching");
    reveal_strlit("wait");
    reveal_strlit("play_wait");
    reveal_strlit("playing");
    lemma_ascii_lowercase_fixed(matching_state_text(m));
    match m {
        MatchingState::Nothing => {},
        MatchingState::Matching => {
            assert("matching"@ != "nothing"@);
        },
        MatchingState::Wait => {},
        MatchingState::PlayWait => {},
        MatchingState::Playing => {
            assert("playing"@[0] != "nothing"@[0]);
            assert("playing"@ != "matching"@);
        },
        MatchingState::NotSet => {},
    }
}

/// Parsing the display text of an error level gives the level back.
pub proof fn lemma_error_level_round_trip(l: ErrorLevel)
    ensures
        is_ascii_chars(error_level_text(l)),
        error_level_parse(ascii_lowercase(error_level_text(l))) == Ok::<ErrorLevel, MessageError>(l),
{
    reveal_strlit("fatal");
    reveal_strlit("warning");
    reveal_strlit("ok");
    lemma_ascii_lowercase_fixed(error_level_text(l));
}

/// On ASCII names, parsing ignores case: a name and its ASCII lower-case
/// form parse alike.
pub proof fn lemma_parse_ignores_ascii_case(s: Seq<char>)
    ensures
        ascii_lowercase(ascii_lowercase(s)) == ascii_lowercase(s),
        matching_state_parse(ascii_lowercase(ascii_lowercase(s))) == matching_state_parse(ascii_lowercase(s)),
        error_level_parse(ascii_lowercase(ascii_lowercase(s))) == error_level_parse(ascii_lowercase(s)),
{
    assert forall|i: int| 0 <= i < s.len() implies #[trigger] ascii_lower_char(ascii_lower_char(s[i]))
        == ascii_lower_char(s[i]) by {
        let c = s[i];
        if 'A' <= c <= 'Z' {
            assert((c as u32) + 32 <= 'z' as u32);
        }
    }
    assert(ascii_lowercase(ascii_lowercase(s)) =~= ascii_lowercase(s));
}

} // verus!
