use vstd::prelude::*;

use crate::text::decimal;
use crate::text::decimal_text;
use crate::text::Utf8Failure;

verus! {

/// The errors of the message protocol.
///
/// Where an error carries another error, it carries that error's text (the
/// way the error displays itself), which is all that the server reads of it.
#[derive(Debug, PartialEq)]
pub enum MessageError {
    NotFound,
    NotLongEnough,
    CommandNotFound,
    CommunicationError,
    UndefinedError,
    TooLong,
    EmptyCommand,
    InvalidUUID,
    MissingUUID,
    ParseError,
    ConnectionClosed,
    InvalidType,
    InvalidUtf8(Utf8Failure),
    DeserializeError(String),
    Errors(Vec<MessageError>),
    OtherError(String),
    FatalError(String),
}

/// Whether an error ends the connection it happened on: an undefined error,
/// a missing UUID, a closed connection, a fatal error, or a list of errors
/// that holds one of these.
pub open spec fn is_unrecoverable(e: MessageError) -> bool
    decreases e,
{
    match e {
        MessageError::UndefinedError => true,
        MessageError::MissingUUID => true,
        MessageError::ConnectionClosed => true,
        MessageError::FatalError(_) => true,
        MessageError::Errors(errors) => any_unrecoverable(errors@),
        _ => false,
    }
}

/// Whether one of the errors in `errors` is unrecoverable.
pub open spec fn any_unrecoverable(errors: Seq<MessageError>) -> bool
    decreases errors,
{
    if errors.len() == 0 {
        false
    } else {
        is_unrecoverable(errors.last()) || any_unrecoverable(errors.drop_last())
    }
}


/// Some error of the list is unrecoverable exactly when `any_unrecoverable`
/// says so.
proof fn lemma_any_unrecoverable(errors: Seq<MessageError>)
    ensures
        any_unrecoverable(errors) <==> exists|i: int| 0 <= i < errors.len() && is_unrecoverable(#[trigger] errors[i]),
    decreases errors.len(),
{
    if errors.len() > 0 {
        let d = errors.drop_last();
        lemma_any_unrecoverable(d);
        assert(forall|j: int| 0 <= j < d.len() ==> d[j] == errors[j]);
        if exists|i: int| 0 <= i < errors.len() && is_unrecoverable(#[trigger] errors[i]) {
            let i = choose|i: int| 0 <= i < errors.len() && is_unrecoverable(#[trigger] errors[i]);
            if i < d.len() {
                assert(is_unrecoverable(d[i]));
            }
        }
        if is_unrecoverable(errors.last()) {
            assert(is_unrecoverable(errors[errors.len() - 1]));
        }
        if exists|i: int| 0 <= i < d.len() && is_unrecoverable(#[trigger] d[i]) {
            let i = choose|i: int| 0 <= i < d.len() && is_unrecoverable(#[trigger] d[i]);
            assert(is_unrecoverable(errors[i]));
        }
    }
}

/// Which errors end a connection: an undefined error, a missing UUID, a
/// closed connection, a fatal error, and a list of errors of which one ends
/// it; every other error is recoverable, among them an unreadable
/// (`InvalidUtf8`) or undecodable message, a missing or unknown command, an
/// invalid type and an invalid UUID.
pub proof fn lemma_unrecoverable_kinds(e: MessageError)
    ensures
        is_unrecoverable(e) <==> {
            ||| e is UndefinedError
            ||| e is MissingUUID
            ||| e is ConnectionClosed
            ||| e is FatalError
            ||| (e is Errors && exists|i: int|
                0 <= i < e->Errors_0@.len() && is_unrecoverable(#[trigger] e->Errors_0@[i]))
        },
        e is InvalidUtf8 || e is DeserializeError || e is OtherError || e is NotFound
            || e is CommandNotFound || e is InvalidType || e is InvalidUUID || e is ParseError
            || e is NotLongEnough || e is CommunicationError || e is TooLong || e is EmptyCommand
            ==> !is_unrecoverable(e),
{
    if let MessageError::Errors(errors) = e {
        lemma_any_unrecoverable(errors@);
    }
}

/// The text of a UTF-8 failure, as `std::str::Utf8Error` displays it.
pub open spec fn utf8_failure_text(f: Utf8Failure) -> Seq<char> {
    match f.error_len {
        Some(len) => "invalid utf-8 sequence of "@ + decimal_text(len as nat) + " bytes from index "@
            + decimal_text(f.valid_up_to as nat),
        None => "incomplete utf-8 byte sequence from index "@ + decimal_text(f.valid_up_to as nat),
    }
}

/// The text of an error, as it is displayed.
pub open spec fn error_text(e: MessageError) -> Seq<char>
    decreases e,
{
    match e {
        MessageError::NotFound => "message not found"@,
        MessageError::NotLongEnough => "message not long enough"@,
        MessageError::CommandNotFound => "command not found"@,
        MessageError::CommunicationError => "communication error"@,
        MessageError::UndefinedError => "undefined error"@,
        MessageError::TooLong => "message too long"@,
        MessageError::EmptyCommand => "empty command"@,
        MessageError::InvalidUUID => "invalid UUID format"@,
        MessageError::MissingUUID => "UUID is missing"@,
        MessageError::ParseError => "parse error"@,
        MessageError::ConnectionClosed => "connection closed"@,
        MessageError::InvalidType => "invalid type"@,
        MessageError::InvalidUtf8(f) => "invalid UTF8: "@ + utf8_failure_text(f),
        MessageError::DeserializeError(t) => "deserialize error: "@ + t@,
        MessageError::Errors(errors) => errors_text(errors@),
        MessageError::OtherError(t) => t@,
        MessageError::FatalError(t) => "fatal error: "@ + t@,
    }
}

/// The texts of a list of errors, each followed by a space.
pub open spec fn errors_text(errors: Seq<MessageError>) -> Seq<char>
    decreases errors,
{
    if errors.len() == 0 {
        Seq::empty()
    } else {
        errors_text(errors.drop_last()) + error_text(errors.last()) + " "@
    }
}

fn push_utf8_failure(out: &mut String, f: &Utf8Failure)
    ensures
        final(out)@ == old(out)@ + utf8_failure_text(*f),
{
    match f.error_len {
        Some(len) => {
            out.append("invalid utf-8 sequence of ");
            out.append(decimal(len as u128).as_str());
            out.append(" bytes from index ");
            out.append(decimal(f.valid_up_to as u128).as_str());
        },
        None => {
            out.append("incomplete utf-8 byte sequence from index ");
            out.append(decimal(f.valid_up_to as u128).as_str());
        },
    }
    assert(final(out)@ =~= old(out)@ + utf8_failure_text(*f));
}

impl MessageError {
    /// Whether this error ends the connection it happened on.
    pub fn unrecoverable_error(&self) -> (r: bool)
        ensures
            r == is_unrecoverable(*self),
        decreases *self,
    {
        match self {
            MessageError::UndefinedError => true,
            MessageError::MissingUUID => true,
            MessageError::ConnectionClosed => true,
            MessageError::FatalError(_) => true,
            MessageError::Errors(errors) => {
                let mut i: usize = 0;
                let mut found = false;
                while i < errors.len()
                    invariant
                        i <= errors@.len(),
                        *self is Errors && self->Errors_0 == *errors,
                        found == any_unrecoverable(errors@.subrange(0, i as int)),
                    decreases errors@.len() - i,
                {
                    proof {
                        assert(decreases_to!(*self => self->Errors_0));
                        assert(decreases_to!(*errors => errors[i as int]));
                    }
                    let here = errors[i].unrecoverable_error();
                    assert(errors@.subrange(0, i + 1).drop_last() =~= errors@.subrange(0, i as int));
                    found = found || here;
                    i = i + 1;
                }
                assert(errors@.subrange(0, i as int) =~= errors@);
                found
            },
            _ => false,
        }
    }

    /// Appends the text of this error to `out`.
    pub fn write_text(&self, out: &mut String)
        ensures
            final(out)@ == old(out)@ + error_text(*self),
        decreases *self,
    {
        match self {
            MessageError::NotFound => out.append("message not found"),
            MessageError::NotLongEnough => out.append("message not long enough"),
            MessageError::CommandNotFound => out.append("command not found"),
            MessageError::CommunicationError => out.append("communication error"),
            MessageError::UndefinedError => out.append("undefined error"),
            MessageError::TooLong => out.append("message too long"),
            MessageError::EmptyCommand => out.append("empty command"),
            MessageError::InvalidUUID => out.append("invalid UUID format"),
            MessageError::MissingUUID => out.append("UUID is missing"),
            MessageError::ParseError => out.append("parse error"),
            MessageError::ConnectionClosed => out.append("connection closed"),
            MessageError::InvalidType => out.append("invalid type"),
            MessageError::InvalidUtf8(f) => {
                out.append("invalid UTF8: ");
                push_utf8_failure(out, f);
                assert(final(out)@ =~= old(out)@ + error_text(*self));
            },
            MessageError::DeserializeError(t) => {
                out.append("deserialize error: ");
                out.append(t.as_str());
                assert(final(out)@ =~= old(out)@ + error_text(*self));
            },
            MessageError::Errors(errors) => {
                let mut i: usize = 0;
                assert(errors@.subrange(0, 0) =~= Seq::<MessageError>::empty());
                while i < errors.len()
                    invariant
                        i <= errors@.len(),
                        *self is Errors && self->Errors_0 == *errors,
                        out@ == old(out)@ + errors_text(errors@.subrange(0, i as int)),
                    decreases errors@.len() - i,
                {
                    proof {
                        assert(decreases_to!(*self => self->Errors_0));
                        assert(decreases_to!(*errors => errors[i as int]));
                    }
                    errors[i].write_text(out);
                    out.append(" ");
                    assert(errors@.subrange(0, i + 1).drop_last() =~= errors@.subrange(0, i as int));
                    assert(out@ =~= old(out)@ + errors_text(errors@.subrange(0, i + 1)));
                    i = i + 1;
                }
                assert(errors@.subrange(0, i as int) =~= errors@);
            },
            MessageError::OtherError(t) => out.append(t.as_str()),
            MessageError::FatalError(t) => {
                out.append("fatal error: ");
                out.append(t.as_str());
                assert(final(out)@ =~= old(out)@ + error_text(*self));
            },
        }
    }

    /// The text of this error, as it is displayed.
    pub fn to_string(&self) -> (r: String)
        ensures
            r@ == error_text(*self),
    {
        let mut out = String::new();
        self.write_text(&mut out);
        assert(out@ =~= error_text(*self));
        out
    }
}

} // verus!
