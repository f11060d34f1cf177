//! The error type of the small connection library that the clients share.
use vstd::prelude::*;

verus! {

/// Errors of a client connection.
#[derive(Debug, Clone, Copy, PartialEq, Eq, Structural)]
pub enum MessageError {
    NotFound,
    NotLongEnough,
    CommandNotFound,
    CommunicationError,
    UndefinedError,
    TooLong,
}

/// The text of a connection error, as it is displayed.
pub open spec fn connect_error_text(e: MessageError) -> Seq<char> {
    match e {
        MessageError::NotFound => "message not found"@,
        MessageError::NotLongEnough => "message not long enough"@,
        MessageError::CommandNotFound => "command not found"@,
        MessageError::CommunicationError => "communication error"@,
        MessageError::UndefinedError => "undefined error"@,
        MessageError::TooLong => "too long"@,
    }
}

impl MessageError {
    /// The text of this error, as it is displayed.
    pub fn to_string(&self) -> (r: String)
        ensures
            r@ == connect_error_text(*self),
    {
        let mut out = String::new();
        match self {
            MessageError::NotFound => out.append("message not found"),
            MessageError::NotLongEnough => out.append("message not long enough"),
            MessageError::CommandNotFound => out.append("command not found"),
            MessageError::CommunicationError => out.append("communication error"),
            MessageError::UndefinedError => out.append("undefined error"),
            MessageError::TooLong => out.append("too long"),
        }
        assert(out@ =~= connect_error_text(*self));
        out
    }
}

} // verus!
