//! The client's side of the protocol: the requests it builds.
use vstd::prelude::*;

use crate::json::JsonMap;
use crate::json::JsonValue;
use crate::json::TcpMessage;
use crate::protocol::text_object;
use crate::text::owned;
use crate::text::trim;
use crate::text::trimmed;
use crate::text::lossy_decode;
use crate::text::utf8_decode_lossy;

verus! {

/// The little-endian bytes of `n`, `count` of them.
pub open spec fn le_bytes(n: nat, count: nat) -> Seq<u8>
    decreases count,
{
    if count == 0 {
        Seq::empty()
    } else {
        seq![(n % 256) as u8] + le_bytes(n / 256, (count - 1) as nat)
    }
}

/// The number of bytes of a `usize`.
pub open spec fn usize_bytes() -> nat {
    (usize::BITS / 8) as nat
}

/// The request for a UUID under a client identifier: the command byte 1,
/// then the identifier's bytes, least significant first.
pub fn uuid_request_frame(id: usize) -> (r: Vec<u8>)
    ensures
        r@ == seq![1u8] + le_bytes(id as nat, usize_bytes()),
{
    let count: u32 = usize::BITS / 8;
    let mut out: Vec<u8> = Vec::new();
    out.push(1u8);
    let mut x: usize = id;
    let mut k: u32 = 0;
    while k < count
        invariant
            count == usize_bytes(),
            k <= count,
            out@ + le_bytes(x as nat, (count - k) as nat) == seq![1u8] + le_bytes(id as nat, usize_bytes()),
        decreases count - k,
    {
        let ghost before = out@;
        let ghost rest = le_bytes(x as nat, (count - k) as nat);
        assert(rest == seq![(x as nat % 256) as u8] + le_bytes(x as nat / 256, (count - k - 1) as nat));
        out.push((x % 256) as u8);
        assert(out@ + le_bytes((x / 256) as nat, (count - k - 1) as nat) =~= before + rest);
        x = x / 256;
        k = k + 1;
    }
    assert(le_bytes(x as nat, 0) =~= Seq::<u8>::empty());
    assert(out@ =~= out@ + le_bytes(x as nat, 0));
    out
}

/// The request to reconnect under the UUID that the server sent back:
/// `CONNECT_UUID.` and the reply's text without surrounding white space
/// (invalid UTF-8 replaced by U+FFFD).
pub fn connect_uuid_request(reply: &[u8]) -> (r: String)
    ensures
        r@ == "CONNECT_UUID."@ + trimmed(lossy_decode(reply@)),
{
    let text = utf8_decode_lossy(reply);
    connect_request_for(text.as_str())
}

/// The request to reconnect, given the text of the server's reply:
/// `CONNECT_UUID.` and the text without surrounding white space.
pub fn connect_request_for(reply_text: &str) -> (r: String)
    ensures
        r@ == "CONNECT_UUID."@ + trimmed(reply_text@),
{
    let uid = trim(reply_text);
    let mut out = owned("CONNECT_UUID.");
    out.append(uid.as_str());
    out
}

/// The first request of a client: a new UUID.
pub fn uuid_get_request() -> (r: TcpMessage)
    ensures
        r.send_type@ == "uuid"@,
        r.command@ == "get"@,
        r.uuid@.len() == 0,
        r.send_data@.len() == 0,
        r.request_data@.len() == 0,
{
    TcpMessage {
        send_type: owned("uuid"),
        command: owned("get"),
        uuid: String::new(),
        send_data: JsonMap::new(),
        request_data: JsonMap::new(),
    }
}

/// A request that sets the client's name, sent under its UUID text.
pub fn name_request(uuid: &String, name: String) -> (r: TcpMessage)
    ensures
        r.send_type@ == "name"@,
        r.command@.len() == 0,
        r.uuid@ == uuid@,
        r.send_data@.len() == 1,
        r.send_data@[0].0@ == uuid@,
        r.send_data@[0].1 is Object,
        crate::protocol::text_field(r.send_data@[0].1->Object_0, "name"@, name@),
        r.request_data@.len() == 0,
{
    TcpMessage {
        send_type: owned("name"),
        command: String::new(),
        uuid: uuid.clone(),
        send_data: JsonMap::single(uuid.clone(), JsonValue::Object(text_object("name", name))),
        request_data: JsonMap::new(),
    }
}

/// A request that starts (`true`) or stops (`false`) matching for a
/// two-player game, sent under the client's UUID text.
pub fn matching_request(uuid: &String, join: bool) -> (r: TcpMessage)
    ensures
        r.send_type@ == "connect"@,
        r.command@.len() == 0,
        r.uuid@ == uuid@,
        r.send_data@.len() == 1,
        r.send_data@[0].0@ == uuid@,
        r.send_data@[0].1 is Object,
        r.send_data@[0].1->Object_0@.len() == 1,
        r.send_data@[0].1->Object_0@[0].0@ == "matching_2"@,
        r.send_data@[0].1->Object_0@[0].1 == JsonValue::Bool(join),
        r.request_data@.len() == 0,
{
    let inner = JsonMap::single(owned("matching_2"), JsonValue::Bool(join));
    TcpMessage {
        send_type: owned("connect"),
        command: String::new(),
        uuid: uuid.clone(),
        send_data: JsonMap::single(uuid.clone(), JsonValue::Object(inner)),
        request_data: JsonMap::new(),
    }
}

} // verus!
