//! The server's side of the wire protocol: framing a received message,
//! the UUID and name handshakes, and the messages the server sends.
use vstd::prelude::*;
use vstd::slice::slice_subrange;
use vstd::utf8::decode_utf8;
use vstd::utf8::valid_utf8;

use crate::error::MessageError;
use crate::ids::new_player_uuid;
use crate::ids::parse_uuid;
use crate::ids::parsed_uuid;
use crate::ids::uuid_text;
use crate::ids::uuid_to_string;
use crate::json::distinct_keys;
use crate::json::lemma_lookup_distinct_at;
use crate::json::lemma_lookup_some_entry;
use crate::json::lookup;
use crate::json::JsonMap;
use crate::json::JsonValue;
use crate::json::TcpMessage;
use crate::states::ErrorLevel;
use crate::text::owned;
use crate::text::text_eq;
use crate::text::utf8_decode;
use crate::text::utf8_error_len;

verus! {

// ---------------------------------------------------------------------------
// Framing
// ---------------------------------------------------------------------------

/// The text of a received message: the first `size` bytes of the buffer
/// that a read filled. A read of no bytes means that the peer closed the
/// connection; bytes that are not UTF-8 are reported with the failure.
pub fn decode_frame(buffer: &[u8], size: usize) -> (r: Result<String, MessageError>)
    requires
        size <= buffer@.len(),
    ensures
        size == 0 ==> r == Err::<String, MessageError>(MessageError::ConnectionClosed),
        size > 0 && valid_utf8(buffer@.subrange(0, size as int)) ==> (r matches Ok(s) && s@
            == decode_utf8(buffer@.subrange(0, size as int))),
        size > 0 && !valid_utf8(buffer@.subrange(0, size as int)) ==> (r matches Err(
            MessageError::InvalidUtf8(f),
        ) && f.valid_up_to <= size && valid_utf8(buffer@.subrange(0, f.valid_up_to as int))
            && forall|k: int| f.valid_up_to < k <= size ==> !valid_utf8(
            #[trigger] buffer@.subrange(0, k),
        ) && f.error_len == utf8_error_len(buffer@.subrange(0, size as int))),
{
    if size == 0 {
        return Err(MessageError::ConnectionClosed);
    }
    let bytes = slice_subrange(buffer, 0, size);
    match utf8_decode(bytes) {
        Ok(s) => Ok(s),
        Err(f) => {
            assert(bytes@.subrange(0, f.valid_up_to as int) =~= buffer@.subrange(0, f.valid_up_to as int));
            assert forall|k: int| f.valid_up_to < k <= size implies !valid_utf8(
                #[trigger] buffer@.subrange(0, k),
            ) by {
                assert(bytes@.subrange(0, k) =~= buffer@.subrange(0, k));
            }
            Err(MessageError::InvalidUtf8(f))
        },
    }
}

// ---------------------------------------------------------------------------
// JSON shapes of the messages
// ---------------------------------------------------------------------------

/// An object with exactly one entry, `key` with the text `value`.
pub open spec fn text_field(m: JsonMap, key: Seq<char>, value: Seq<char>) -> bool {
    &&& m@.len() == 1
    &&& m@[0].0@ == key
    &&& m@[0].1 is Text
    &&& m@[0].1->Text_0@ == value
}

/// An object with exactly one entry, `outer` with an object that has
/// exactly one entry, `key` with the text `value`.
pub open spec fn nested_text_field(m: JsonMap, outer: Seq<char>, key: Seq<char>, value: Seq<char>) -> bool {
    &&& m@.len() == 1
    &&& m@[0].0@ == outer
    &&& m@[0].1 is Object
    &&& text_field(m@[0].1->Object_0, key, value)
}

/// The request for a player's name again: one entry, under `key`, with the
/// array that holds the one string `name`.
pub open spec fn asks_for_name(m: JsonMap, key: Seq<char>) -> bool {
    &&& m@.len() == 1
    &&& m@[0].0@ == key
    &&& m@[0].1 is Array
    &&& m@[0].1->Array_0@.len() == 1
    &&& m@[0].1->Array_0@[0] is Text
    &&& m@[0].1->Array_0@[0]->Text_0@ == "name"@
}

/// An object with one entry, `key` with the text `value`.
pub fn text_object(key: &str, value: String) -> (r: JsonMap)
    ensures
        text_field(r, key@, value@),
{
    JsonMap::single(owned(key), JsonValue::Text(value))
}

/// An object with one entry, `outer` with an object with one entry, `key`
/// with the text `value`.
fn nested_text_object(outer: String, key: &str, value: String) -> (r: JsonMap)
    ensures
        nested_text_field(r, outer@, key@, value@),
{
    let inner = text_object(key, value);
    JsonMap::single(outer, JsonValue::Object(inner))
}

/// A message with no data.
fn bare_message(send_type: &str, command: String, uuid: String) -> (r: TcpMessage)
    ensures
        r.send_type@ == send_type@,
        r.command@ == command@,
        r.uuid@ == uuid@,
        r.send_data@.len() == 0,
        r.request_data@.len() == 0,
{
    TcpMessage {
        send_type: owned(send_type),
        command,
        uuid,
        send_data: JsonMap::new(),
        request_data: JsonMap::new(),
    }
}

// ---------------------------------------------------------------------------
// The UUID handshake
// ---------------------------------------------------------------------------

/// What a client asks for in the UUID handshake.
#[derive(Debug, PartialEq)]
pub enum UuidRequest {
    /// A new player: issue a fresh UUID.
    Issue,
    /// A returning player: look up the UUID.
    Check(u128),
    /// The request is refused.
    Reject(MessageError),
}

/// The request for a UUID check, given what the UUID text parsed to.
pub open spec fn check_request(parsed: Option<u128>) -> UuidRequest {
    match parsed {
        Some(u) => UuidRequest::Check(u),
        None => UuidRequest::Reject(MessageError::InvalidUUID),
    }
}

/// What the first message of a connection asks for: a message that is not
/// of type `uuid` is refused with `NotFound`; `get` asks for a new UUID;
/// `check` asks to resume the UUID in the message (an unreadable UUID is
/// refused with `InvalidUUID`); any other command is refused with
/// `CommandNotFound`.
pub open spec fn uuid_request(m: TcpMessage) -> UuidRequest {
    if m.send_type@ != "uuid"@ {
        UuidRequest::Reject(MessageError::NotFound)
    } else if m.command@ == "get"@ {
        UuidRequest::Issue
    } else if m.command@ == "check"@ {
        check_request(parsed_uuid(m.uuid@))
    } else {
        UuidRequest::Reject(MessageError::CommandNotFound)
    }
}

impl UuidRequest {
    /// The request for a UUID check, given what the UUID text parsed to.
    pub fn from_parsed(parsed: Option<u128>) -> (r: UuidRequest)
        ensures
            r == check_request(parsed),
    {
        match parsed {
            Some(u) => UuidRequest::Check(u),
            None => UuidRequest::Reject(MessageError::InvalidUUID),
        }
    }
}

/// Reads the first message of a connection (see `uuid_request`).
pub fn classify_uuid_request(message: &TcpMessage) -> (r: UuidRequest)
    ensures
        r == uuid_request(*message),
{
    if !text_eq(message.send_type.as_str(), "uuid") {
        UuidRequest::Reject(MessageError::NotFound)
    } else if text_eq(message.command.as_str(), "get") {
        UuidRequest::Issue
    } else if text_eq(message.command.as_str(), "check") {
        UuidRequest::from_parsed(parse_uuid(message.uuid.as_str()))
    } else {
        UuidRequest::Reject(MessageError::CommandNotFound)
    }
}

/// The outcome of the UUID handshake, given the request and, for a check,
/// whether the UUID is registered: a new player gets a fresh random UUID
/// (marked as newly issued); a registered UUID is resumed; an unregistered
/// one is refused with `NotFound`; a refused request stays refused.
pub fn uuid_check(request: UuidRequest, registered: bool) -> (r: Result<(u128, bool), MessageError>)
    ensures
        match request {
            UuidRequest::Issue => r matches Ok((u, fresh)) && fresh && u & 0xf000_0000_0000_0000_0000u128
                == 0x4000_0000_0000_0000_0000u128 && u & 0xc000_0000_0000_0000u128 == 0x8000_0000_0000_0000u128,
            UuidRequest::Check(u) => if registered {
                r == Ok::<(u128, bool), MessageError>((u, false))
            } else {
                r == Err::<(u128, bool), MessageError>(MessageError::NotFound)
            },
            UuidRequest::Reject(e) => r == Err::<(u128, bool), MessageError>(e),
        },
{
    match request {
        UuidRequest::Issue => Ok((new_player_uuid(), true)),
        UuidRequest::Check(u) => if registered {
            Ok((u, false))
        } else {
            Err(MessageError::NotFound)
        },
        UuidRequest::Reject(e) => Err(e),
    }
}

/// The answer to the UUID handshake: the accepted answer with the UUID, or
/// the rejected answer when the handshake failed.
pub fn uuid_handshake_reply(outcome: &Result<u128, MessageError>) -> (r: TcpMessage)
    ensures
        match *outcome {
            Ok(u) => r.send_type@ == "set_uuid"@ && r.command@ == "ok"@ && r.uuid@ == uuid_text(u),
            Err(_) => r.send_type@ == "error"@ && r.command@ == "fatal"@ && r.uuid@.len() == 0,
        },
        r.send_data@.len() == 0,
        r.request_data@.len() == 0,
{
    match outcome {
        Ok(u) => uuid_accepted_message(*u),
        Err(_) => uuid_rejected_message(),
    }
}

/// The answer to the name handshake and the name the player goes by: the
/// name that was set and its confirmation, or, when none could be set, the
/// placeholder name and the answer that asks for the name again.
pub fn name_handshake_reply(outcome: Result<String, MessageError>, uuid: u128) -> (r: (TcpMessage, String))
    ensures
        match outcome {
            Ok(name) => {
                &&& r.1@ == name@
                &&& r.0.send_type@ == "name_set"@
                &&& r.0.command@ == "ok"@
                &&& nested_text_field(r.0.send_data, uuid_text(uuid), "name"@, name@)
                &&& r.0.request_data@.len() == 0
            },
            Err(_) => {
                &&& r.1@ == placeholder_name_text()
                &&& r.0.send_type@ == "error"@
                &&& r.0.command@ == "warning"@
                &&& nested_text_field(r.0.send_data, uuid_text(uuid), "error"@, "can not setting name"@)
                &&& asks_for_name(r.0.request_data, uuid_text(uuid))
            },
        },
        r.0.uuid@ == uuid_text(uuid),
{
    match outcome {
        Ok(name) => (name_accepted_message(uuid, &name), name),
        Err(_) => (name_rejected_message(uuid), placeholder_name()),
    }
}

/// The answer to a client whose UUID was issued or found: `set_uuid`, level
/// `ok`, with the UUID.
pub fn uuid_accepted_message(uuid: u128) -> (r: TcpMessage)
    ensures
        r.send_type@ == "set_uuid"@,
        r.command@ == "ok"@,
        r.uuid@ == uuid_text(uuid),
        r.send_data@.len() == 0,
        r.request_data@.len() == 0,
{
    bare_message("set_uuid", ErrorLevel::Okay.to_string(), uuid_to_string(uuid))
}

/// The answer to a client whose UUID handshake failed: `error`, level
/// `fatal`, with no UUID.
pub fn uuid_rejected_message() -> (r: TcpMessage)
    ensures
        r.send_type@ == "error"@,
        r.command@ == "fatal"@,
        r.uuid@.len() == 0,
        r.send_data@.len() == 0,
        r.request_data@.len() == 0,
{
    bare_message("error", ErrorLevel::Fatal.to_string(), String::new())
}

// ---------------------------------------------------------------------------
// The name handshake
// ---------------------------------------------------------------------------

/// The name that a player's second message sets: the message must be of
/// type `name` (else `CommandNotFound`), its sent data must hold an object
/// under the player's UUID text and that object a `name` (else `NotFound`),
/// and these must be an object and a string (else `InvalidType`).
pub open spec fn name_in_message(m: TcpMessage, uuid: u128) -> Result<Seq<char>, MessageError> {
    if m.send_type@ != "name"@ {
        Err(MessageError::CommandNotFound)
    } else {
        match lookup(m.send_data@, uuid_text(uuid)) {
            None => Err(MessageError::NotFound),
            Some(JsonValue::Object(data)) => match lookup(data@, "name"@) {
                None => Err(MessageError::NotFound),
                Some(JsonValue::Text(name)) => Ok(name@),
                Some(_) => Err(MessageError::InvalidType),
            },
            Some(_) => Err(MessageError::InvalidType),
        }
    }
}

/// The name a player sets is the string it sent, character for character:
/// a name that the handshake accepts stands under `name` in an object that
/// the message's sent data holds under the player's UUID text.
pub proof fn lemma_name_is_the_sent_string(m: TcpMessage, uuid: u128)
    ensures
        name_in_message(m, uuid) matches Ok(n) ==> {
            &&& m.send_type@ == "name"@
            &&& exists|i: int, j: int| {
                &&& 0 <= i < m.send_data@.len()
                &&& m.send_data@[i].0@ == uuid_text(uuid)
                &&& m.send_data@[i].1 is Object
                &&& 0 <= j < m.send_data@[i].1->Object_0@.len()
                &&& m.send_data@[i].1->Object_0@[j].0@ == "name"@
                &&& m.send_data@[i].1->Object_0@[j].1 is Text
                &&& m.send_data@[i].1->Object_0@[j].1->Text_0@ == n
            }
        },
{
    if name_in_message(m, uuid) is Ok {
        let own = uuid_text(uuid);
        lemma_lookup_some_entry(m.send_data@, own);
        let i = choose|i: int| 0 <= i < m.send_data@.len() && m.send_data@[i].0@ == own && m.send_data@[i].1
            == lookup(m.send_data@, own)->Some_0;
        let o = m.send_data@[i].1->Object_0;
        lemma_lookup_some_entry(o@, "name"@);
        let j = choose|j: int| 0 <= j < o@.len() && o@[j].0@ == "name"@ && o@[j].1 == lookup(o@, "name"@)->Some_0;
        assert(m.send_data@[i].1->Object_0@[j].1->Text_0@ == name_in_message(m, uuid)->Ok_0);
    }
}

/// Conversely, a `name` message whose sent data holds, under the player's
/// UUID text, an object with a `name` string sets exactly that string (keys
/// being distinct, as in every object).
pub proof fn lemma_sent_name_is_taken(m: TcpMessage, uuid: u128, i: int, j: int)
    requires
        m.send_type@ == "name"@,
        distinct_keys(m.send_data@),
        0 <= i < m.send_data@.len(),
        m.send_data@[i].0@ == uuid_text(uuid),
        m.send_data@[i].1 is Object,
        distinct_keys(m.send_data@[i].1->Object_0@),
        0 <= j < m.send_data@[i].1->Object_0@.len(),
        m.send_data@[i].1->Object_0@[j].0@ == "name"@,
        m.send_data@[i].1->Object_0@[j].1 is Text,
    ensures
        name_in_message(m, uuid) == Ok::<Seq<char>, MessageError>(
            m.send_data@[i].1->Object_0@[j].1->Text_0@,
        ),
{
    lemma_lookup_distinct_at(m.send_data@, i);
    lemma_lookup_distinct_at(m.send_data@[i].1->Object_0@, j);
}

/// The name that a player sets, given what the read of its second message
/// produced (see `name_in_message`; a failed read is passed on).
pub fn name_check(read: Result<TcpMessage, MessageError>, uuid: u128) -> (r: Result<String, MessageError>)
    ensures
        match read {
            Err(e) => r == Err::<String, MessageError>(e),
            Ok(m) => match name_in_message(m, uuid) {
                Ok(name) => r matches Ok(s) && s@ == name,
                Err(e) => r == Err::<String, MessageError>(e),
            },
        },
{
    let message = match read {
        Ok(message) => message,
        Err(e) => return Err(e),
    };
    if !text_eq(message.send_type.as_str(), "name") {
        return Err(MessageError::CommandNotFound);
    }
    let key = uuid_to_string(uuid);
    let data_value = match message.send_data.get(key.as_str()) {
        Some(v) => v,
        None => return Err(MessageError::NotFound),
    };
    let data = match data_value.as_object() {
        Some(d) => d,
        None => return Err(MessageError::InvalidType),
    };
    let name_value = match data.get("name") {
        Some(v) => v,
        None => return Err(MessageError::NotFound),
    };
    match name_value.as_str() {
        Some(name) => Ok(owned(name)),
        None => Err(MessageError::InvalidType),
    }
}

/// What the server keeps of a player once the name is set: an object whose
/// one entry is the `name`.
pub fn player_profile(name: String) -> (r: JsonMap)
    ensures
        text_field(r, "name"@, name@),
{
    text_object("name", name)
}

/// The answer to a player whose name was set: `name_set`, level `ok`, with
/// the name under the player's UUID text.
pub fn name_accepted_message(uuid: u128, name: &String) -> (r: TcpMessage)
    ensures
        r.send_type@ == "name_set"@,
        r.command@ == "ok"@,
        r.uuid@ == uuid_text(uuid),
        nested_text_field(r.send_data, uuid_text(uuid), "name"@, name@),
        r.request_data@.len() == 0,
{
    let mut message = bare_message("name_set", ErrorLevel::Okay.to_string(), uuid_to_string(uuid));
    message.send_data = nested_text_object(uuid_to_string(uuid), "name", name.clone());
    message
}

/// The answer to a player whose name could not be set: `error`, level
/// `warning`, with an error text under the player's UUID text, and asking
/// for the `name` again.
pub fn name_rejected_message(uuid: u128) -> (r: TcpMessage)
    ensures
        r.send_type@ == "error"@,
        r.command@ == "warning"@,
        r.uuid@ == uuid_text(uuid),
        nested_text_field(r.send_data, uuid_text(uuid), "error"@, "can not setting name"@),
        asks_for_name(r.request_data, uuid_text(uuid)),
{
    let mut message = bare_message("error", ErrorLevel::Warning.to_string(), uuid_to_string(uuid));
    message.send_data = nested_text_object(uuid_to_string(uuid), "error", owned("can not setting name"));
    let mut wanted: Vec<JsonValue> = Vec::new();
    wanted.push(JsonValue::Text(owned("name")));
    message.request_data = JsonMap::single(uuid_to_string(uuid), JsonValue::Array(wanted));
    message
}

/// The name that stands in for a player's name when it cannot be had.
pub open spec fn placeholder_name_text() -> Seq<char> {
    "ERRORRRRRRRRRRRRRRRRRRRRRRRRRRRR"@
}

/// The name that stands in for a player's name when it cannot be had.
pub fn placeholder_name() -> (r: String)
    ensures
        r@ == placeholder_name_text(),
{
    owned("ERRORRRRRRRRRRRRRRRRRRRRRRRRRRRR")
}

// ---------------------------------------------------------------------------
// Names of other players
// ---------------------------------------------------------------------------

/// The name kept for a player, if its data holds a `name` string.
pub open spec fn kept_name(data: Option<JsonMap>) -> Option<Seq<char>> {
    match data {
        Some(m) => match lookup(m@, "name"@) {
            Some(JsonValue::Text(name)) => Some(name@),
            _ => None,
        },
        None => None,
    }
}

/// The name kept for a player is a string stored under `name` in its data,
/// unchanged; and (keys being distinct, as in every object) a `name` string
/// in the data is the name kept.
pub proof fn lemma_kept_name_is_the_stored_string(data: JsonMap)
    ensures
        kept_name(Some(data)) matches Some(n) ==> exists|j: int| {
            &&& 0 <= j < data@.len()
            &&& data@[j].0@ == "name"@
            &&& data@[j].1 is Text
            &&& data@[j].1->Text_0@ == n
        },
        distinct_keys(data@) ==> forall|j: int|
            0 <= j < data@.len() && (#[trigger] data@[j]).0@ == "name"@ && data@[j].1 is Text
                ==> kept_name(Some(data)) == Some(data@[j].1->Text_0@),
{
    if kept_name(Some(data)) is Some {
        lemma_lookup_some_entry(data@, "name"@);
    }
    if distinct_keys(data@) {
        assert forall|j: int|
            0 <= j < data@.len() && (#[trigger] data@[j]).0@ == "name"@ && data@[j].1 is Text
                implies kept_name(Some(data)) == Some(data@[j].1->Text_0@) by {
            lemma_lookup_distinct_at(data@, j);
        }
    }
}

/// The name of the player `get_uuid`, given that player's kept data, for a
/// message to the player `uuid`. Without a name, the answer is a warning
/// for the player `uuid` that reports the UUID it asked about.
pub fn name_get(data: Option<&JsonMap>, get_uuid: u128, uuid: u128) -> (r: Result<String, TcpMessage>)
    ensures
        match kept_name(
            match data {
                Some(m) => Some(*m),
                None => None,
            },
        ) {
            Some(name) => r matches Ok(s) && s@ == name,
            None => r matches Err(m) && {
                &&& m.send_type@ == "error"@
                &&& m.command@ == "warning"@
                &&& m.uuid@ == uuid_text(uuid)
                &&& nested_text_field(m.send_data, uuid_text(uuid), "error"@, "invalid uuid: "@ + uuid_text(get_uuid))
                &&& m.request_data@.len() == 0
            },
        },
{
    if let Some(m) = data {
        if let Some(value) = m.get("name") {
            if let Some(name) = value.as_str() {
                return Ok(owned(name));
            }
        }
    }
    let mut text = owned("invalid uuid: ");
    text.append(uuid_to_string(get_uuid).as_str());
    let mut message = bare_message("error", ErrorLevel::Warning.to_string(), uuid_to_string(uuid));
    message.send_data = nested_text_object(uuid_to_string(uuid), "error", text);
    Err(message)
}

/// The messages that tell the player `uuid` of a two-player match of `a`
/// and `b`, given the kept data of each: first a warning for each of the two
/// whose name cannot be had (that one then goes by the placeholder name),
/// then the announcement with the two names.
pub fn announce_match_2(uuid: u128, a: u128, a_data: Option<&JsonMap>, b: u128, b_data: Option<&JsonMap>) -> (r: Vec<TcpMessage>)
    ensures
        ({
            let ka = kept_name(match a_data { Some(m) => Some(*m), None => None });
            let kb = kept_name(match b_data { Some(m) => Some(*m), None => None });
            let warnings = (if ka is None { 1int } else { 0int }) + (if kb is None { 1int } else { 0int });
            let na = match ka { Some(n) => n, None => placeholder_name_text() };
            let nb = match kb { Some(n) => n, None => placeholder_name_text() };
            let last = r@[r@.len() - 1];
            &&& r@.len() == warnings + 1
            &&& forall|i: int| 0 <= i < warnings ==> (#[trigger] r@[i]).send_type@ == "error"@ && r@[i].command@ == "warning"@
            &&& (ka is None ==> nested_text_field(r@[0].send_data, uuid_text(uuid), "error"@, "invalid uuid: "@ + uuid_text(a)))
            &&& (kb is None ==> nested_text_field(r@[warnings - 1].send_data, uuid_text(uuid), "error"@, "invalid uuid: "@ + uuid_text(b)))
            &&& last.send_type@ == "data"@
            &&& last.command@ == "push"@
            &&& last.uuid@ == uuid_text(uuid)
            &&& last.request_data@.len() == 0
            &&& (uuid_text(a) != uuid_text(b) ==> last.send_data@.len() == 2)
            &&& (uuid_text(a) == uuid_text(b) ==> last.send_data@.len() == 1)
            &&& (lookup(last.send_data@, uuid_text(b)) matches Some(JsonValue::Object(o)) && text_field(o, "name"@, nb))
            &&& (uuid_text(a) != uuid_text(b) ==> (lookup(last.send_data@, uuid_text(a)) matches Some(JsonValue::Object(o)) && text_field(o, "name"@, na)))
        }),
{
    let mut out: Vec<TcpMessage> = Vec::new();
    let name_a = match name_get(a_data, a, uuid) {
        Ok(n) => n,
        Err(warning) => {
            out.push(warning);
            placeholder_name()
        },
    };
    let name_b = match name_get(b_data, b, uuid) {
        Ok(n) => n,
        Err(warning) => {
            out.push(warning);
            placeholder_name()
        },
    };
    out.push(match_announcement(uuid, a, name_a, b, name_b));
    out
}

/// The message that tells the player `uuid` that a two-player match was
/// made: `data`, `push`, with each player's name under its UUID text (one
/// entry if the two texts are the same, the second name then winning).
pub fn match_announcement(uuid: u128, a: u128, name_a: String, b: u128, name_b: String) -> (r: TcpMessage)
    ensures
        r.send_type@ == "data"@,
        r.command@ == "push"@,
        r.uuid@ == uuid_text(uuid),
        r.request_data@.len() == 0,
        lookup(r.send_data@, uuid_text(b)) matches Some(JsonValue::Object(o)) && text_field(o, "name"@, name_b@),
        uuid_text(a) != uuid_text(b) ==> (lookup(r.send_data@, uuid_text(a)) matches Some(JsonValue::Object(o)) && text_field(o, "name"@, name_a@)),
        uuid_text(a) != uuid_text(b) ==> r.send_data@.len() == 2,
        uuid_text(a) == uuid_text(b) ==> r.send_data@.len() == 1,
{
    let mut send_data = JsonMap::new();
    let _ = send_data.insert(uuid_to_string(a), JsonValue::Object(player_profile(name_a)));
    let _ = send_data.insert(uuid_to_string(b), JsonValue::Object(player_profile(name_b)));
    let mut message = bare_message("data", owned("push"), uuid_to_string(uuid));
    message.send_data = send_data;
    message
}

} // verus!
