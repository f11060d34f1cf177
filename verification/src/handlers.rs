//! What the server does with the data of a `connect` message: the matching
//! state machine of a player, and the replies to data requests.
use vstd::prelude::*;

use crate::error::error_text;
use crate::error::is_unrecoverable;
use crate::error::MessageError;
use crate::ids::uuid_text;
use crate::ids::uuid_to_string;
use crate::json::distinct_keys;
use crate::json::has_key;
use crate::json::lemma_lookup_drop_last_other;
use crate::json::lemma_lookup_last_distinct;
use crate::json::lookup;
use crate::json::JsonMap;
use crate::json::JsonValue;
use crate::json::TcpMessage;
use crate::states::MatchingState;
use crate::text::owned;
use crate::text::text_eq;

verus! {

/// What the server keeps of one connected player.
#[derive(Debug, PartialEq)]
pub struct UserState {
    pub data: JsonMap,
    pub uuid: u128,
    pub matching_state_2: MatchingState,
    pub matching_state_4: MatchingState,
}

impl UserState {
    /// A fresh state for a player: no data, and no matching state yet.
    pub fn new(uuid: u128) -> (r: UserState)
        ensures
            r.uuid == uuid,
            r.data@.len() == 0,
            r.matching_state_2 == MatchingState::NotSet,
            r.matching_state_4 == MatchingState::NotSet,
    {
        UserState {
            data: JsonMap::new(),
            uuid,
            matching_state_2: MatchingState::NotSet,
            matching_state_4: MatchingState::NotSet,
        }
    }
}

impl Default for UserState {
    /// The state a player's tasks start from: the nil UUID, no data, and no
    /// matching state yet.
    fn default() -> (r: UserState)
        ensures
            r.uuid == 0,
            r.data@.len() == 0,
            r.matching_state_2 == MatchingState::NotSet,
            r.matching_state_4 == MatchingState::NotSet,
    {
        UserState::new(0)
    }
}

/// What handling a message asks the server to do next.
#[derive(Debug, PartialEq)]
pub enum MessageCommand {
    AddPlayer2(u128),
    RemovePlayer2(u128),
    AddPlayer4(u128),
    RemovePlayer4(u128),
    SendTcpMessage(TcpMessage),
}

/// One result of handling a piece of message data.
pub type HandleResult = Result<MessageCommand, MessageError>;

/// The effect of one `matching_2` value on the two-player matching state:
/// `true` starts matching from `Nothing` or an unset state and queues the
/// player; `false` stops matching; any other value is a type error.
pub open spec fn matching_2_step(st: MatchingState, v: JsonValue, uuid: u128) -> (MatchingState, Seq<HandleResult>) {
    match v {
        JsonValue::Bool(true) => {
            if st == MatchingState::Nothing || st == MatchingState::NotSet {
                (MatchingState::Matching, seq![Ok(MessageCommand::AddPlayer2(uuid))])
            } else {
                (st, Seq::empty())
            }
        },
        JsonValue::Bool(false) => {
            if st == MatchingState::Matching {
                (MatchingState::Nothing, Seq::empty())
            } else {
                (st, Seq::empty())
            }
        },
        _ => (st, seq![Err(MessageError::InvalidType)]),
    }
}

/// The effect of a player's own data object, entry by entry: only the
/// entries named `matching_2` do anything.
pub open spec fn player_data_fold(entries: Seq<(String, JsonValue)>, st: MatchingState, uuid: u128) -> (MatchingState, Seq<HandleResult>)
    decreases entries.len(),
{
    if entries.len() == 0 {
        (st, Seq::empty())
    } else {
        let (s1, out1) = player_data_fold(entries.drop_last(), st, uuid);
        let entry = entries.last();
        if entry.0@ == "matching_2"@ {
            let (s2, out2) = matching_2_step(s1, entry.1, uuid);
            (s2, out1 + out2)
        } else {
            (s1, out1)
        }
    }
}

/// The effect of the sent data, entry by entry: a value that is not an
/// object is a type error; the object under the player's own UUID text is
/// the player's data; other players' objects are passed over.
pub open spec fn send_data_fold(entries: Seq<(String, JsonValue)>, st: MatchingState, uuid: u128) -> (MatchingState, Seq<HandleResult>)
    decreases entries.len(),
{
    if entries.len() == 0 {
        (st, Seq::empty())
    } else {
        let (s1, out1) = send_data_fold(entries.drop_last(), st, uuid);
        let entry = entries.last();
        match entry.1 {
            JsonValue::Object(m) => {
                if entry.0@ == uuid_text(uuid) {
                    let (s2, out2) = player_data_fold(m@, s1, uuid);
                    (s2, out1 + out2)
                } else {
                    (s1, out1)
                }
            },
            _ => (s1, out1.push(Err(MessageError::InvalidType))),
        }
    }
}

fn is_matching_2(name: &String) -> (r: bool)
    ensures
        r == (name@ == "matching_2"@),
{
    text_eq(name.as_str(), "matching_2")
}

/// Applies a player's own data object to the two-player matching state.
fn player_data_handle(data: &JsonMap, uuid: u128, state: &mut UserState, result: &mut Vec<HandleResult>)
    ensures
        ({
            let (s, out) = player_data_fold(data@, old(state).matching_state_2, uuid);
            &&& final(state).matching_state_2 == s
            &&& final(result)@ == old(result)@ + out
        }),
        final(state).matching_state_4 == old(state).matching_state_4,
        final(state).uuid == old(state).uuid,
        final(state).data == old(state).data,
        distinct_keys(data@),
{
    let ghost st0 = state.matching_state_2;
    let ghost res0 = result@;
    let mut i: usize = 0;
    let entries = data.entries();
    while i < entries.len()
        invariant
            entries@ == data@,
            i <= data@.len(),
            ({
                let (s, out) = player_data_fold(data@.subrange(0, i as int), st0, uuid);
                &&& state.matching_state_2 == s
                &&& result@ == res0 + out
            }),
            state.matching_state_4 == old(state).matching_state_4,
            state.uuid == old(state).uuid,
            state.data == old(state).data,
            st0 == old(state).matching_state_2,
        decreases data@.len() - i,
    {
        let ghost prefix = data@.subrange(0, i + 1);
        assert(prefix.drop_last() =~= data@.subrange(0, i as int));
        let (name, value) = &entries[i];
        if is_matching_2(name) {
            match value.as_bool() {
                Some(true) => {
                    if state.matching_state_2 == MatchingState::Nothing
                        || state.matching_state_2 == MatchingState::NotSet {
                        state.matching_state_2 = MatchingState::Matching;
                        result.push(Ok(MessageCommand::AddPlayer2(uuid)));
                    }
                },
                Some(false) => {
                    if state.matching_state_2 == MatchingState::Matching {
                        state.matching_state_2 = MatchingState::Nothing;
                    }
                },
                None => {
                    result.push(Err(MessageError::InvalidType));
                },
            }
        }
        proof {
            let (s1, out1) = player_data_fold(data@.subrange(0, i as int), st0, uuid);
            let (s2, out2) = matching_2_step(s1, data@[i as int].1, uuid);
            assert(out1 + Seq::<HandleResult>::empty() =~= out1);
            assert((res0 + out1) + out2 =~= res0 + (out1 + out2));
            assert(res0 + out1 + seq![Ok::<MessageCommand, MessageError>(MessageCommand::AddPlayer2(uuid))] =~= (res0 + out1).push(Ok(MessageCommand::AddPlayer2(uuid))));
            assert(res0 + out1 + seq![Err::<MessageCommand, MessageError>(MessageError::InvalidType)] =~= (res0 + out1).push(Err(MessageError::InvalidType)));
        }
        i = i + 1;
    }
    assert(data@.subrange(0, i as int) =~= data@);
}

/// Handles the `send_data` of a `connect` message for the player `uuid`:
/// updates the two-player matching state and collects the resulting
/// commands and errors, in order (see `send_data_fold`).
pub fn send_data_handle(send_data: JsonMap, uuid: u128, name: &String, state: &mut UserState) -> (r: Vec<HandleResult>)
    ensures
        ({
            let (s, out) = send_data_fold(send_data@, old(state).matching_state_2, uuid);
            &&& final(state).matching_state_2 == s
            &&& r@ == out
        }),
        ({
            let (s, out) = own_matching_outcome(send_data@, old(state).matching_state_2, uuid);
            &&& final(state).matching_state_2 == s
            &&& ok_values(r@) == ok_values(out)
        }),
        has_command(r@) ==> {
            &&& final(state).matching_state_2 == MatchingState::Matching
            &&& send_data_fold(send_data@, MatchingState::Matching, uuid).0 == MatchingState::Matching
            &&& !has_command(send_data_fold(send_data@, MatchingState::Matching, uuid).1)
        },
        final(state).matching_state_4 == old(state).matching_state_4,
        final(state).uuid == old(state).uuid,
        final(state).data == old(state).data,
{
    let mut result: Vec<HandleResult> = Vec::new();
    let entries = send_data.entries();
    if send_data.is_empty() {
        assert(!has_key(send_data@, uuid_text(uuid)));
        return result;
    }
    let own_key = uuid_to_string(uuid);
    let ghost st0 = state.matching_state_2;
    let mut i: usize = 0;
    while i < entries.len()
        invariant
            entries@ == send_data@,
            distinct_keys(send_data@),
            forall|j: int|
                0 <= j < i && (#[trigger] send_data@[j]).0@ == uuid_text(uuid) && send_data@[j].1 is Object
                    ==> distinct_keys(send_data@[j].1->Object_0@),
            i <= send_data@.len(),
            own_key@ == uuid_text(uuid),
            ({
                let (s, out) = send_data_fold(send_data@.subrange(0, i as int), st0, uuid);
                &&& state.matching_state_2 == s
                &&& result@ == out
            }),
            state.matching_state_4 == old(state).matching_state_4,
            state.uuid == old(state).uuid,
            state.data == old(state).data,
            st0 == old(state).matching_state_2,
        decreases send_data@.len() - i,
    {
        let ghost prefix = send_data@.subrange(0, i + 1);
        assert(prefix.drop_last() =~= send_data@.subrange(0, i as int));
        let (key, value) = &entries[i];
        match value.as_object() {
            Some(data) => {
                if text_eq(key.as_str(), own_key.as_str()) {
                    player_data_handle(data, uuid, state, &mut result);
                    assert(send_data@[i as int].1->Object_0 == *data);
                }
            },
            None => {
                result.push(Err(MessageError::InvalidType));
            },
        }
        i = i + 1;
    }
    assert(send_data@.subrange(0, i as int) =~= send_data@);
    proof {
        lemma_send_data_closed(send_data@, st0, uuid);
        if has_command(result@) {
            lemma_queued_at_most_once(send_data@, st0, uuid);
        }
    }
    result
}


/// Whether a matching state is settled: the player waits for, is about to
/// play, or plays a game.
pub open spec fn is_settled(st: MatchingState) -> bool {
    st == MatchingState::Wait || st == MatchingState::PlayWait || st == MatchingState::Playing
}

/// Whether every result is the queueing of `uuid` for a two-player match or
/// a type error.
pub open spec fn only_own_queueing(out: Seq<HandleResult>, uuid: u128) -> bool {
    forall|i: int| 0 <= i < out.len() ==> (#[trigger] out[i] == Ok::<MessageCommand, MessageError>(MessageCommand::AddPlayer2(uuid))
        || out[i] == Err::<MessageCommand, MessageError>(MessageError::InvalidType))
}

/// Whether every result is a type error.
pub open spec fn only_errors(out: Seq<HandleResult>) -> bool {
    forall|i: int| 0 <= i < out.len() ==> #[trigger] out[i] == Err::<MessageCommand, MessageError>(MessageError::InvalidType)
}

/// Whether a player's data asks to stop matching.
pub open spec fn asks_to_stop(data: Seq<(String, JsonValue)>) -> bool {
    exists|i: int| 0 <= i < data.len() && data[i].0@ == "matching_2"@ && #[trigger] data[i].1 == JsonValue::Bool(false)
}

/// Whether no object that the sent data holds under the player's UUID text
/// asks to stop matching.
pub open spec fn never_asks_to_stop(entries: Seq<(String, JsonValue)>, uuid: u128) -> bool {
    forall|i: int| 0 <= i < entries.len() && (#[trigger] entries[i]).0@ == uuid_text(uuid) && entries[i].1 is Object
        ==> !asks_to_stop(entries[i].1->Object_0@)
}

proof fn lemma_player_data_laws(data: Seq<(String, JsonValue)>, st: MatchingState, uuid: u128)
    ensures
        only_own_queueing(player_data_fold(data, st, uuid).1, uuid),
        is_settled(st) ==> player_data_fold(data, st, uuid).0 == st && only_errors(player_data_fold(data, st, uuid).1),
        st == MatchingState::Matching && !asks_to_stop(data) ==> player_data_fold(data, st, uuid).0 == st && only_errors(player_data_fold(data, st, uuid).1),
    decreases data.len(),
{
    if data.len() > 0 {
        let d = data.drop_last();
        lemma_player_data_laws(d, st, uuid);
        if !asks_to_stop(data) {
            assert(!asks_to_stop(d)) by {
                if asks_to_stop(d) {
                    let i = choose|i: int| 0 <= i < d.len() && d[i].0@ == "matching_2"@ && #[trigger] d[i].1 == JsonValue::Bool(false);
                    assert(data[i] == d[i]);
                }
            }
        }
        let (s1, out1) = player_data_fold(d, st, uuid);
        let entry = data.last();
        if entry.0@ == "matching_2"@ {
            let (s2, out2) = matching_2_step(s1, entry.1, uuid);
            assert(only_own_queueing(out2, uuid));
            assert(out1 + out2 == player_data_fold(data, st, uuid).1);
            assert forall|i: int| 0 <= i < (out1 + out2).len() implies (#[trigger] (out1 + out2)[i] == Ok::<MessageCommand, MessageError>(MessageCommand::AddPlayer2(uuid))
                || (out1 + out2)[i] == Err::<MessageCommand, MessageError>(MessageError::InvalidType)) by {
                if i < out1.len() {
                    assert((out1 + out2)[i] == out1[i]);
                } else {
                    assert((out1 + out2)[i] == out2[i - out1.len()]);
                }
            }
            if is_settled(st) || (st == MatchingState::Matching && !asks_to_stop(data)) {
                if st == MatchingState::Matching {
                    assert(entry.1 != JsonValue::Bool(false)) by {
                        if entry.1 == JsonValue::Bool(false) {
                            assert(data[data.len() - 1] == entry);
                        }
                    }
                }
                assert(only_errors(out2));
                assert forall|i: int| 0 <= i < (out1 + out2).len() implies #[trigger] (out1 + out2)[i] == Err::<MessageCommand, MessageError>(MessageError::InvalidType) by {
                    if i < out1.len() {
                        assert((out1 + out2)[i] == out1[i]);
                    } else {
                        assert((out1 + out2)[i] == out2[i - out1.len()]);
                    }
                }
            }
        }
    }
}

/// Handling sent data only ever queues the player itself, and otherwise
/// only reports type errors; a player whose state is settled (waiting,
/// about to play, playing) keeps that state and is not queued; and a
/// player who is already matching, and whose data never asks to stop, stays
/// matching and is not queued a second time.
pub proof fn lemma_send_data_laws(entries: Seq<(String, JsonValue)>, st: MatchingState, uuid: u128)
    ensures
        only_own_queueing(send_data_fold(entries, st, uuid).1, uuid),
        is_settled(st) ==> send_data_fold(entries, st, uuid).0 == st && only_errors(send_data_fold(entries, st, uuid).1),
        st == MatchingState::Matching && never_asks_to_stop(entries, uuid) ==> send_data_fold(entries, st, uuid).0 == st
            && only_errors(send_data_fold(entries, st, uuid).1),
    decreases entries.len(),
{
    if entries.len() > 0 {
        let d = entries.drop_last();
        lemma_send_data_laws(d, st, uuid);
        if never_asks_to_stop(entries, uuid) {
            assert forall|i: int| 0 <= i < d.len() && (#[trigger] d[i]).0@ == uuid_text(uuid) && d[i].1 is Object
                implies !asks_to_stop(d[i].1->Object_0@) by {
                assert(entries[i] == d[i]);
            }
        }
        let (s1, out1) = send_data_fold(d, st, uuid);
        let entry = entries.last();
        match entry.1 {
            JsonValue::Object(m) => {
                if entry.0@ == uuid_text(uuid) {
                    lemma_player_data_laws(m@, s1, uuid);
                    let (s2, out2) = player_data_fold(m@, s1, uuid);
                    if st == MatchingState::Matching && never_asks_to_stop(entries, uuid) {
                        assert(entries[entries.len() - 1] == entry);
                    }
                    assert forall|i: int| 0 <= i < (out1 + out2).len() implies (#[trigger] (out1 + out2)[i] == Ok::<MessageCommand, MessageError>(MessageCommand::AddPlayer2(uuid))
                        || (out1 + out2)[i] == Err::<MessageCommand, MessageError>(MessageError::InvalidType)) by {
                        if i < out1.len() {
                            assert((out1 + out2)[i] == out1[i]);
                        } else {
                            assert((out1 + out2)[i] == out2[i - out1.len()]);
                        }
                    }
                    if is_settled(st) || (st == MatchingState::Matching && never_asks_to_stop(entries, uuid)) {
                        assert forall|i: int| 0 <= i < (out1 + out2).len() implies #[trigger] (out1 + out2)[i] == Err::<MessageCommand, MessageError>(MessageError::InvalidType) by {
                            if i < out1.len() {
                                assert((out1 + out2)[i] == out1[i]);
                            } else {
                                assert((out1 + out2)[i] == out2[i - out1.len()]);
                            }
                        }
                    }
                }
            },
            _ => {
                let out = out1.push(Err(MessageError::InvalidType));
                assert forall|i: int| 0 <= i < out.len() implies (#[trigger] out[i] == Ok::<MessageCommand, MessageError>(MessageCommand::AddPlayer2(uuid))
                    || out[i] == Err::<MessageCommand, MessageError>(MessageError::InvalidType)) by {
                    if i < out1.len() {
                        assert(out[i] == out1[i]);
                    }
                }
                if is_settled(st) || (st == MatchingState::Matching && never_asks_to_stop(entries, uuid)) {
                    assert forall|i: int| 0 <= i < out.len() implies #[trigger] out[i] == Err::<MessageCommand, MessageError>(MessageError::InvalidType) by {
                        if i < out1.len() {
                            assert(out[i] == out1[i]);
                        }
                    }
                }
            },
        }
    }
}

/// Whether some result is a command.
pub open spec fn has_command(out: Seq<HandleResult>) -> bool {
    exists|i: int| 0 <= i < out.len() && (#[trigger] out[i]) is Ok
}

/// Whether the sent data reads as serde's maps do: no key occurs twice, nor
/// within an object under the player's own UUID text.
pub open spec fn keys_distinct_for(entries: Seq<(String, JsonValue)>, uuid: u128) -> bool {
    &&& distinct_keys(entries)
    &&& forall|i: int|
        0 <= i < entries.len() && (#[trigger] entries[i]).0@ == uuid_text(uuid) && entries[i].1 is Object
            ==> distinct_keys(entries[i].1->Object_0@)
}

/// The `matching_2` value of the player's own object in the sent data, if any.
pub open spec fn own_matching_value(entries: Seq<(String, JsonValue)>, uuid: u128) -> Option<JsonValue> {
    match lookup(entries, uuid_text(uuid)) {
        Some(JsonValue::Object(m)) => lookup(m@, "matching_2"@),
        _ => None,
    }
}

/// What the sent data does to the two-player state when its keys are
/// distinct: the one `matching_2` value of the player's own object, if there
/// is one, takes one step.
pub open spec fn own_matching_outcome(entries: Seq<(String, JsonValue)>, st: MatchingState, uuid: u128) -> (MatchingState, Seq<HandleResult>) {
    match own_matching_value(entries, uuid) {
        Some(v) => matching_2_step(st, v, uuid),
        None => (st, Seq::empty()),
    }
}

proof fn lemma_ok_values_concat(a: Seq<HandleResult>, b: Seq<HandleResult>)
    ensures
        ok_values(a + b) == ok_values(a) + ok_values(b),
    decreases b.len(),
{
    if b.len() == 0 {
        assert(a + b =~= a);
        assert(ok_values(a) + ok_values(b) =~= ok_values(a));
    } else {
        assert((a + b).drop_last() =~= a + b.drop_last());
        assert((a + b).last() == b.last());
        lemma_ok_values_concat(a, b.drop_last());
        match b.last() {
            Ok(c) => {
                assert(ok_values(a) + ok_values(b.drop_last()).push(c) =~= (ok_values(a) + ok_values(b.drop_last())).push(c));
            },
            Err(_) => {},
        }
    }
}

proof fn lemma_has_command_ok_values(out: Seq<HandleResult>)
    ensures
        has_command(out) <==> ok_values(out).len() > 0,
    decreases out.len(),
{
    if out.len() > 0 {
        let d = out.drop_last();
        lemma_has_command_ok_values(d);
        assert(forall|j: int| 0 <= j < d.len() ==> d[j] == out[j]);
        if has_command(d) {
            let i = choose|i: int| 0 <= i < d.len() && (#[trigger] d[i]) is Ok;
            assert(out[i] is Ok);
        }
        if has_command(out) && !(out.last() is Ok) {
            let i = choose|i: int| 0 <= i < out.len() && (#[trigger] out[i]) is Ok;
            assert(i < d.len());
            assert(d[i] is Ok);
        }
        if out.last() is Ok {
            assert(out[out.len() - 1] is Ok);
        }
    }
}

proof fn lemma_player_data_no_matching(data: Seq<(String, JsonValue)>, st: MatchingState, uuid: u128)
    requires
        !has_key(data, "matching_2"@),
    ensures
        player_data_fold(data, st, uuid) == (st, Seq::<HandleResult>::empty()),
    decreases data.len(),
{
    if data.len() > 0 {
        assert(data[data.len() - 1] == data.last());
        lemma_lookup_drop_last_other(data, "matching_2"@);
        lemma_player_data_no_matching(data.drop_last(), st, uuid);
    }
}

proof fn lemma_player_data_closed(data: Seq<(String, JsonValue)>, st: MatchingState, uuid: u128)
    requires
        distinct_keys(data),
    ensures
        player_data_fold(data, st, uuid) == match lookup(data, "matching_2"@) {
            Some(v) => matching_2_step(st, v, uuid),
            None => (st, Seq::<HandleResult>::empty()),
        },
    decreases data.len(),
{
    if data.len() == 0 {
        assert(!has_key(data, "matching_2"@));
    } else {
        let d = data.drop_last();
        let e = data.last();
        lemma_lookup_last_distinct(data);
        if e.0@ == "matching_2"@ {
            lemma_player_data_no_matching(d, st, uuid);
            let (s2, out2) = matching_2_step(st, e.1, uuid);
            assert(Seq::<HandleResult>::empty() + out2 =~= out2);
        } else {
            lemma_lookup_drop_last_other(data, "matching_2"@);
            lemma_player_data_closed(d, st, uuid);
        }
    }
}

proof fn lemma_send_data_closed(entries: Seq<(String, JsonValue)>, st: MatchingState, uuid: u128)
    requires
        keys_distinct_for(entries, uuid),
    ensures
        send_data_fold(entries, st, uuid).0 == own_matching_outcome(entries, st, uuid).0,
        ok_values(send_data_fold(entries, st, uuid).1) == ok_values(own_matching_outcome(entries, st, uuid).1),
    decreases entries.len(),
{
    let own = uuid_text(uuid);
    if entries.len() == 0 {
        assert(!has_key(entries, own));
    } else {
        let d = entries.drop_last();
        let e = entries.last();
        let n = entries.len() - 1;
        assert(e == entries[n]);
        lemma_lookup_last_distinct(entries);
        assert(forall|j: int| 0 <= j < d.len() ==> d[j] == entries[j]);
        assert(keys_distinct_for(d, uuid)) by {
            assert forall|i: int|
                0 <= i < d.len() && (#[trigger] d[i]).0@ == own && d[i].1 is Object implies distinct_keys(
                d[i].1->Object_0@,
            ) by {
                assert(entries[i] == d[i]);
            }
        }
        lemma_send_data_closed(d, st, uuid);
        let (s1, out1) = send_data_fold(d, st, uuid);
        if e.0@ == own {
            assert(lookup(d, own) is None);
            assert(own_matching_value(d, uuid) is None);
            match e.1 {
                JsonValue::Object(m) => {
                    lemma_player_data_closed(m@, s1, uuid);
                    let (s2, out2) = player_data_fold(m@, s1, uuid);
                    lemma_ok_values_concat(out1, out2);
                    assert(Seq::<MessageCommand>::empty() + ok_values(out2) =~= ok_values(out2));
                },
                _ => {
                    assert(out1.push(Err(MessageError::InvalidType)).drop_last() =~= out1);
                },
            }
        } else {
            lemma_lookup_drop_last_other(entries, own);
            match e.1 {
                JsonValue::Object(m) => {},
                _ => {
                    assert(out1.push(Err(MessageError::InvalidType)).drop_last() =~= out1);
                },
            }
        }
    }
}

/// A player is queued at most once: when sent data that reads as a map (its
/// keys distinct, see `keys_distinct_for`) queues the player, the player is
/// then matching, and the same data sent again queues nothing and leaves the
/// player matching.
pub proof fn lemma_queued_at_most_once(entries: Seq<(String, JsonValue)>, st: MatchingState, uuid: u128)
    requires
        keys_distinct_for(entries, uuid),
        has_command(send_data_fold(entries, st, uuid).1),
    ensures
        send_data_fold(entries, st, uuid).0 == MatchingState::Matching,
        send_data_fold(entries, MatchingState::Matching, uuid).0 == MatchingState::Matching,
        !has_command(send_data_fold(entries, MatchingState::Matching, uuid).1),
{
    lemma_send_data_closed(entries, st, uuid);
    lemma_send_data_closed(entries, MatchingState::Matching, uuid);
    lemma_has_command_ok_values(send_data_fold(entries, st, uuid).1);
    lemma_has_command_ok_values(send_data_fold(entries, MatchingState::Matching, uuid).1);
    reveal_with_fuel(ok_values, 2);
}

/// Whether a player's data asks to start matching.
pub open spec fn asks_to_join(data: Seq<(String, JsonValue)>) -> bool {
    exists|i: int| 0 <= i < data.len() && data[i].0@ == "matching_2"@ && #[trigger] data[i].1 == JsonValue::Bool(true)
}

/// Whether no object that the sent data holds under the player's UUID text
/// asks to start matching.
pub open spec fn never_asks_to_join(entries: Seq<(String, JsonValue)>, uuid: u128) -> bool {
    forall|i: int| 0 <= i < entries.len() && (#[trigger] entries[i]).0@ == uuid_text(uuid) && entries[i].1 is Object
        ==> !asks_to_join(entries[i].1->Object_0@)
}

proof fn lemma_player_data_without_join(data: Seq<(String, JsonValue)>, st: MatchingState, uuid: u128)
    requires
        !asks_to_join(data),
    ensures
        ok_values(player_data_fold(data, st, uuid).1).len() == 0,
        player_data_fold(data, st, uuid).0 == st || (st == MatchingState::Matching
            && player_data_fold(data, st, uuid).0 == MatchingState::Nothing),
    decreases data.len(),
{
    if data.len() > 0 {
        let d = data.drop_last();
        let e = data.last();
        assert(!asks_to_join(d)) by {
            if asks_to_join(d) {
                let i = choose|i: int| 0 <= i < d.len() && d[i].0@ == "matching_2"@ && #[trigger] d[i].1 == JsonValue::Bool(true);
                assert(data[i] == d[i]);
            }
        }
        lemma_player_data_without_join(d, st, uuid);
        let (s1, out1) = player_data_fold(d, st, uuid);
        if e.0@ == "matching_2"@ {
            assert(e.1 != JsonValue::Bool(true)) by {
                if e.1 == JsonValue::Bool(true) {
                    assert(data[data.len() - 1] == e);
                }
            }
            let (s2, out2) = matching_2_step(s1, e.1, uuid);
            lemma_ok_values_concat(out1, out2);
            reveal_with_fuel(ok_values, 2);
            assert(ok_values(out2).len() == 0);
        }
    }
}

/// Asking to stop matching never starts it: when the player's own data never
/// asks to join (no `matching_2` value is `true`), handling the sent data
/// queues nobody, and the two-player state either stays as it was or, for a
/// player who was matching, becomes `Nothing`. In particular a player who is
/// not matching is not made matching by a `false`.
pub proof fn lemma_leaving_never_starts_matching(entries: Seq<(String, JsonValue)>, st: MatchingState, uuid: u128)
    requires
        never_asks_to_join(entries, uuid),
    ensures
        !has_command(send_data_fold(entries, st, uuid).1),
        send_data_fold(entries, st, uuid).0 == st || (st == MatchingState::Matching
            && send_data_fold(entries, st, uuid).0 == MatchingState::Nothing),
        st != MatchingState::Matching ==> send_data_fold(entries, st, uuid).0 == st,
{
    lemma_send_data_without_join(entries, st, uuid);
    lemma_has_command_ok_values(send_data_fold(entries, st, uuid).1);
}

proof fn lemma_send_data_without_join(entries: Seq<(String, JsonValue)>, st: MatchingState, uuid: u128)
    requires
        never_asks_to_join(entries, uuid),
    ensures
        ok_values(send_data_fold(entries, st, uuid).1).len() == 0,
        send_data_fold(entries, st, uuid).0 == st || (st == MatchingState::Matching
            && send_data_fold(entries, st, uuid).0 == MatchingState::Nothing),
    decreases entries.len(),
{
    if entries.len() > 0 {
        let d = entries.drop_last();
        let e = entries.last();
        assert(never_asks_to_join(d, uuid)) by {
            assert forall|i: int| 0 <= i < d.len() && (#[trigger] d[i]).0@ == uuid_text(uuid) && d[i].1 is Object
                implies !asks_to_join(d[i].1->Object_0@) by {
                assert(entries[i] == d[i]);
            }
        }
        lemma_send_data_without_join(d, st, uuid);
        let (s1, out1) = send_data_fold(d, st, uuid);
        match e.1 {
            JsonValue::Object(m) => {
                if e.0@ == uuid_text(uuid) {
                    assert(entries[entries.len() - 1] == e);
                    lemma_player_data_without_join(m@, s1, uuid);
                    let (s2, out2) = player_data_fold(m@, s1, uuid);
                    lemma_ok_values_concat(out1, out2);
                }
            },
            _ => {
                assert(out1.push(Err(MessageError::InvalidType)).drop_last() =~= out1);
            },
        }
    }
}

/// Only an object is answered: the reply to a requested entry is a data
/// push exactly when the entry's value is a JSON object, and every other
/// value (an array, a string, a number, a boolean, null) is answered with
/// `InvalidType`. A data push carries that very object under that key.
pub proof fn lemma_only_objects_are_answered(entry: (String, JsonValue), r: HandleResult)
    requires
        request_reply(entry, r),
    ensures
        r is Ok <==> entry.1 is Object,
        !(entry.1 is Object) ==> r == Err::<MessageCommand, MessageError>(MessageError::InvalidType),
        r is Ok ==> r->Ok_0 is SendTcpMessage && r->Ok_0->SendTcpMessage_0.send_data == entry.1->Object_0
            && r->Ok_0->SendTcpMessage_0.uuid@ == entry.0@,
        entry.1 is Array ==> r == Err::<MessageCommand, MessageError>(MessageError::InvalidType),
{
}

/// The reply to one requested entry: an object under a key becomes a `data`
/// `push` message carrying that object as its sent data, with the key as the
/// message's UUID; any other value is a type error.
pub open spec fn request_reply(entry: (String, JsonValue), r: HandleResult) -> bool {
    match entry.1 {
        JsonValue::Object(m) => {
            &&& r is Ok
            &&& r->Ok_0 is SendTcpMessage
            &&& r->Ok_0->SendTcpMessage_0.send_type@ == "data"@
            &&& r->Ok_0->SendTcpMessage_0.command@ == "push"@
            &&& r->Ok_0->SendTcpMessage_0.uuid@ == entry.0@
            &&& r->Ok_0->SendTcpMessage_0.send_data == m
            &&& r->Ok_0->SendTcpMessage_0.request_data@.len() == 0
        },
        _ => r == Err::<MessageCommand, MessageError>(MessageError::InvalidType),
    }
}

/// Handles the `request_data` of a `connect` message: one reply per entry,
/// in order (see `request_reply`). The player's state is left as it is.
pub fn request_data_handle(request_data: JsonMap, uuid: u128, name: &String, state: &mut UserState) -> (r: Vec<HandleResult>)
    ensures
        r@.len() == request_data@.len(),
        forall|i: int| 0 <= i < r@.len() ==> request_reply(request_data@[i], #[trigger] r@[i]),
        *final(state) == *old(state),
{
    let mut result: Vec<HandleResult> = Vec::new();
    let ghost all = request_data@;
    let mut rest = request_data.into_entries();
    let _total = rest.len();
    let mut i: usize = 0;
    while rest.len() > 0
        invariant
            i + rest@.len() == all.len(),
            all.len() <= usize::MAX,
            rest@ == all.subrange(i as int, all.len() as int),
            result@.len() == i,
            forall|j: int| 0 <= j < i ==> request_reply(all[j], #[trigger] result@[j]),
        decreases rest@.len(),
    {
        let (key, value) = rest.remove(0);
        assert(all[i as int] == (key, value));
        match value {
            JsonValue::Object(data) => {
                let message = TcpMessage {
                    send_type: owned("data"),
                    command: owned("push"),
                    uuid: key,
                    send_data: data,
                    request_data: JsonMap::new(),
                };
                result.push(Ok(MessageCommand::SendTcpMessage(message)));
            },
            _ => {
                result.push(Err(MessageError::InvalidType));
            },
        }
        assert(rest@ =~= all.subrange(i + 1, all.len() as int));
        i = i + 1;
    }
    result
}

/// The commands among a sequence of results, in order.
pub open spec fn ok_values(s: Seq<HandleResult>) -> Seq<MessageCommand>
    decreases s.len(),
{
    if s.len() == 0 {
        Seq::empty()
    } else {
        match s.last() {
            Ok(c) => ok_values(s.drop_last()).push(c),
            Err(_) => ok_values(s.drop_last()),
        }
    }
}

/// The errors among a sequence of results, in order.
pub open spec fn err_values(s: Seq<HandleResult>) -> Seq<MessageError>
    decreases s.len(),
{
    if s.len() == 0 {
        Seq::empty()
    } else {
        match s.last() {
            Ok(_) => err_values(s.drop_last()),
            Err(e) => err_values(s.drop_last()).push(e),
        }
    }
}

/// Splits results into the commands and the errors, each kept in order.
pub fn partition_results(results: Vec<HandleResult>) -> (r: (Vec<MessageCommand>, Vec<MessageError>))
    ensures
        r.0@ == ok_values(results@),
        r.1@ == err_values(results@),
{
    let ghost all = results@;
    let mut oks: Vec<MessageCommand> = Vec::new();
    let mut errs: Vec<MessageError> = Vec::new();
    let mut rest = results;
    let _total = rest.len();
    let mut i: usize = 0;
    while rest.len() > 0
        invariant
            i + rest@.len() == all.len(),
            all.len() <= usize::MAX,
            rest@ == all.subrange(i as int, all.len() as int),
            oks@ == ok_values(all.subrange(0, i as int)),
            errs@ == err_values(all.subrange(0, i as int)),
        decreases rest@.len(),
    {
        let item = rest.remove(0);
        assert(all.subrange(0, i + 1).drop_last() =~= all.subrange(0, i as int));
        assert(all.subrange(0, i + 1).last() == item);
        match item {
            Ok(c) => oks.push(c),
            Err(e) => errs.push(e),
        }
        assert(rest@ =~= all.subrange(i + 1, all.len() as int));
        i = i + 1;
    }
    assert(all.subrange(0, i as int) =~= all);
    (oks, errs)
}

/// What handling one read of a player's connection comes to: the outcome of
/// the read itself, the errors met in the data, and the commands to carry out.
#[derive(Debug, PartialEq)]
pub struct HandleOutcome {
    pub first: Result<(), MessageError>,
    pub second: Result<(), Vec<MessageError>>,
    pub commands: Vec<MessageCommand>,
}

/// Handles what a read of a player's connection produced. A failed read, or
/// a message that is not a `connect` message, is reported in `first` and
/// changes nothing. Otherwise the sent data and then the requested data are
/// handled, the commands they produce are returned in order, and the errors
/// they produce, if there are any, in `second`.
pub fn message_handle(read: Result<TcpMessage, MessageError>, uuid: u128, name: &String, state: &mut UserState) -> (r: HandleOutcome)
    ensures
        match read {
            Err(e) => {
                &&& r.first == Err::<(), MessageError>(e)
                &&& r.second matches Err(v) && v@.len() == 0
                &&& r.commands@.len() == 0
                &&& *final(state) == *old(state)
            },
            Ok(m) => if m.send_type@ != "connect"@ {
                &&& r.first == Err::<(), MessageError>(MessageError::CommandNotFound)
                &&& r.second matches Err(v) && v@.len() == 0
                &&& r.commands@.len() == 0
                &&& *final(state) == *old(state)
            } else {
                let (s, out) = send_data_fold(m.send_data@, old(state).matching_state_2, uuid);
                &&& final(state).matching_state_2 == s
                &&& final(state).matching_state_4 == old(state).matching_state_4
                &&& final(state).uuid == old(state).uuid
                &&& final(state).data == old(state).data
                &&& exists|replies: Seq<HandleResult>| {
                    &&& replies.len() == m.request_data@.len()
                    &&& (forall|i: int| 0 <= i < replies.len() ==> request_reply(m.request_data@[i], #[trigger] replies[i]))
                    &&& r.first == Ok::<(), MessageError>(())
                    &&& r.commands@ == ok_values(out + replies)
                    &&& (err_values(out + replies).len() == 0 ==> r.second == Ok::<(), Vec<MessageError>>(()))
                    &&& (err_values(out + replies).len() != 0 ==> (r.second matches Err(v) && v@ == err_values(out + replies)))
                }
            },
        },
{
    let message = match read {
        Ok(message) => message,
        Err(e) => {
            return HandleOutcome { first: Err(e), second: Err(Vec::new()), commands: Vec::new() };
        },
    };
    if !text_eq(message.send_type.as_str(), "connect") {
        return HandleOutcome {
            first: Err(MessageError::CommandNotFound),
            second: Err(Vec::new()),
            commands: Vec::new(),
        };
    }
    let ghost request_entries = message.request_data@;
    let mut results = send_data_handle(message.send_data, uuid, name, state);
    let mut replies = request_data_handle(message.request_data, uuid, name, state);
    let ghost reply_seq = replies@;
    let ghost out = results@;
    results.append(&mut replies);
    assert(results@ == out + reply_seq);
    let (commands, errors) = partition_results(results);
    let second = if errors.len() == 0 {
        Ok(())
    } else {
        Err(errors)
    };
    HandleOutcome { first: Ok(()), second, commands }
}

/// The first unrecoverable error of a list, if any.
pub open spec fn first_unrecoverable(errors: Seq<MessageError>) -> Option<MessageError>
    decreases errors.len(),
{
    if errors.len() == 0 {
        None
    } else if is_unrecoverable(errors[0]) {
        Some(errors[0])
    } else {
        first_unrecoverable(errors.drop_first())
    }
}

/// The error that ends a player's reading loop after a read, if any: an
/// unrecoverable failure of the read, else the first unrecoverable error met
/// in the data.
pub open spec fn read_loop_exit_cause(first: Result<(), MessageError>, second: Result<(), Vec<MessageError>>) -> Option<MessageError> {
    if first is Err && is_unrecoverable(first->Err_0) {
        Some(first->Err_0)
    } else {
        match second {
            Err(errors) => first_unrecoverable(errors@),
            Ok(_) => None,
        }
    }
}

/// Whether a read of a player's connection ends the player's reading loop
/// (see `read_loop_exit_cause`). The loop ends with an `OtherError` that
/// carries the text of the error that ended it.
pub fn read_loop_exit(first: &Result<(), MessageError>, second: &Result<(), Vec<MessageError>>) -> (r: Option<MessageError>)
    ensures
        match read_loop_exit_cause(*first, *second) {
            Some(e) => r matches Some(MessageError::OtherError(t)) && t@ == error_text(e),
            None => r is None,
        },
{
    if let Err(error) = first {
        if error.unrecoverable_error() {
            return Some(MessageError::OtherError(error.to_string()));
        }
    }
    if let Err(errors) = second {
        let mut i: usize = 0;
        assert(errors@.subrange(0, errors@.len() as int) =~= errors@);
        while i < errors.len()
            invariant
                i <= errors@.len(),
                first_unrecoverable(errors@) == first_unrecoverable(errors@.subrange(i as int, errors@.len() as int)),
                read_loop_exit_cause(*first, *second) == first_unrecoverable(errors@),
            decreases errors@.len() - i,
        {
            assert(errors@.subrange(i as int, errors@.len() as int).drop_first() =~= errors@.subrange(i + 1, errors@.len() as int));
            if errors[i].unrecoverable_error() {
                return Some(MessageError::OtherError(errors[i].to_string()));
            }
            i = i + 1;
        }
    }
    None
}

} // verus!
