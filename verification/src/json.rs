//! The JSON values that travel in protocol messages, and the messages.
//!
//! An object keeps its entries in the order in which the wire decoder handed
//! them over; a number keeps its JSON text, since nothing here computes with
//! numbers.
use vstd::prelude::*;

use crate::text::text_eq;

verus! {

/// A JSON value.
#[derive(Debug, PartialEq)]
pub enum JsonValue {
    Null,
    Bool(bool),
    Number(String),
    Text(String),
    Array(Vec<JsonValue>),
    Object(JsonMap),
}

/// A JSON object: its entries, in order. As in a serde map, no key occurs
/// twice; the constructors and `insert` keep it so.
#[derive(Debug, PartialEq)]
pub struct JsonMap {
    pub(crate) entries: Vec<(String, JsonValue)>,
}

/// Whether entry `i` is the first one with key `k`.
pub open spec fn first_key_index(entries: Seq<(String, JsonValue)>, k: Seq<char>, i: int) -> bool {
    &&& 0 <= i < entries.len()
    &&& entries[i].0@ == k
    &&& forall|j: int| 0 <= j < i ==> entries[j].0@ != k
}

/// Whether some entry has key `k`.
pub open spec fn has_key(entries: Seq<(String, JsonValue)>, k: Seq<char>) -> bool {
    exists|i: int| 0 <= i < entries.len() && entries[i].0@ == k
}

/// The value of the first entry with key `k`, if any.
pub open spec fn lookup(entries: Seq<(String, JsonValue)>, k: Seq<char>) -> Option<JsonValue> {
    if has_key(entries, k) {
        Some(entries[choose|i: int| first_key_index(entries, k, i)].1)
    } else {
        None
    }
}

/// Whether no two entries share a key.
pub open spec fn distinct_keys(entries: Seq<(String, JsonValue)>) -> bool {
    forall|i: int, j: int|
        0 <= i < entries.len() && 0 <= j < entries.len() && i != j ==> entries[i].0@ != entries[j].0@
}

/// A key that occurs has a first occurrence.
pub proof fn lemma_first_key_index_exists(entries: Seq<(String, JsonValue)>, k: Seq<char>)
    requires
        has_key(entries, k),
    ensures
        exists|i: int| first_key_index(entries, k, i),
    decreases entries.len(),
{
    let w = choose|i: int| 0 <= i < entries.len() && entries[i].0@ == k;
    let d = entries.drop_last();
    assert(forall|j: int| 0 <= j < d.len() ==> d[j] == entries[j]);
    if has_key(d, k) {
        lemma_first_key_index_exists(d, k);
        let i = choose|i: int| first_key_index(d, k, i);
        assert(first_key_index(entries, k, i));
    } else {
        if w < entries.len() - 1 {
            assert(d[w].0@ == k);
        }
        assert(first_key_index(entries, k, w));
    }
}

/// The first occurrence of a key is unique.
pub proof fn lemma_first_key_index_unique(entries: Seq<(String, JsonValue)>, k: Seq<char>, i: int, j: int)
    requires
        first_key_index(entries, k, i),
        first_key_index(entries, k, j),
    ensures
        i == j,
{
}

/// The value found at the first occurrence of a key is what `lookup` gives.
pub proof fn lemma_lookup_at(entries: Seq<(String, JsonValue)>, k: Seq<char>, i: int)
    requires
        first_key_index(entries, k, i),
    ensures
        lookup(entries, k) == Some(entries[i].1),
{
    let c = choose|i: int| first_key_index(entries, k, i);
    lemma_first_key_index_unique(entries, k, i, c);
}

/// Looking up a key other than the last entry's ignores the last entry.
pub proof fn lemma_lookup_drop_last_other(entries: Seq<(String, JsonValue)>, k: Seq<char>)
    requires
        entries.len() > 0,
        entries.last().0@ != k,
    ensures
        lookup(entries, k) == lookup(entries.drop_last(), k),
        has_key(entries, k) == has_key(entries.drop_last(), k),
{
    let d = entries.drop_last();
    assert(forall|j: int| 0 <= j < d.len() ==> d[j] == entries[j]);
    if has_key(entries, k) {
        let w = choose|i: int| 0 <= i < entries.len() && entries[i].0@ == k;
        assert(d[w].0@ == k);
        lemma_first_key_index_exists(d, k);
        let f = choose|f: int| first_key_index(d, k, f);
        assert(first_key_index(entries, k, f));
        lemma_lookup_at(entries, k, f);
        lemma_lookup_at(d, k, f);
    } else {
        assert(!has_key(d, k)) by {
            if has_key(d, k) {
                let w = choose|i: int| 0 <= i < d.len() && d[i].0@ == k;
                assert(entries[w].0@ == k);
            }
        }
    }
}

/// With distinct keys, looking up the last entry's key gives its value, and
/// the other entries do not have that key.
pub proof fn lemma_lookup_last_distinct(entries: Seq<(String, JsonValue)>)
    requires
        entries.len() > 0,
        distinct_keys(entries),
    ensures
        lookup(entries, entries.last().0@) == Some(entries.last().1),
        !has_key(entries.drop_last(), entries.last().0@),
        distinct_keys(entries.drop_last()),
{
    let d = entries.drop_last();
    let k = entries.last().0@;
    let n = entries.len() - 1;
    assert(forall|j: int| 0 <= j < d.len() ==> d[j] == entries[j]);
    assert(!has_key(d, k)) by {
        if has_key(d, k) {
            let w = choose|i: int| 0 <= i < d.len() && d[i].0@ == k;
            assert(entries[w].0@ == entries[n].0@);
        }
    }
    assert(first_key_index(entries, k, n)) by {
        assert forall|j: int| 0 <= j < n implies entries[j].0@ != k by {
            assert(entries[j] == d[j]);
        }
    }
    lemma_lookup_at(entries, k, n);
    assert forall|i: int, j: int|
        0 <= i < d.len() && 0 <= j < d.len() && i != j implies d[i].0@ != d[j].0@ by {
        assert(d[i] == entries[i] && d[j] == entries[j]);
    }
}

/// With distinct keys, looking up the key of any entry gives that entry's
/// value: lookups then read the object as a map.
pub proof fn lemma_lookup_distinct_at(entries: Seq<(String, JsonValue)>, i: int)
    requires
        distinct_keys(entries),
        0 <= i < entries.len(),
    ensures
        lookup(entries, entries[i].0@) == Some(entries[i].1),
{
    assert(first_key_index(entries, entries[i].0@, i));
    lemma_lookup_at(entries, entries[i].0@, i);
}

/// What a lookup finds is the value of an entry with that key.
pub proof fn lemma_lookup_some_entry(entries: Seq<(String, JsonValue)>, k: Seq<char>)
    requires
        lookup(entries, k) is Some,
    ensures
        exists|i: int| 0 <= i < entries.len() && entries[i].0@ == k && entries[i].1 == lookup(entries, k)->Some_0,
{
    lemma_first_key_index_exists(entries, k);
    let i = choose|i: int| first_key_index(entries, k, i);
    lemma_lookup_at(entries, k, i);
}

/// A key that no entry has is looked up to nothing.
pub proof fn lemma_lookup_absent(entries: Seq<(String, JsonValue)>, k: Seq<char>)
    requires
        !has_key(entries, k),
    ensures
        lookup(entries, k) is None,
{
}

/// The index of the first entry with key `key`.
fn find_entry(entries: &Vec<(String, JsonValue)>, key: &str) -> (r: Option<usize>)
    ensures
        r matches Some(i) ==> first_key_index(entries@, key@, i as int),
        r is None ==> !has_key(entries@, key@),
{
    let mut i: usize = 0;
    while i < entries.len()
        invariant
            i <= entries@.len(),
            forall|j: int| 0 <= j < i ==> entries@[j].0@ != key@,
        decreases entries@.len() - i,
    {
        if text_eq(entries[i].0.as_str(), key) {
            return Some(i);
        }
        i = i + 1;
    }
    None
}

/// Sets the value of `key`: the first entry with that key gets the new
/// value in its place, or a new entry goes at the end. Gives back the
/// value that was replaced.
fn insert_entry(entries: &mut Vec<(String, JsonValue)>, key: String, value: JsonValue) -> (r: Option<JsonValue>)
    ensures
        r == lookup(old(entries)@, key@),
        lookup(final(entries)@, key@) == Some(value),
        forall|k: Seq<char>| k != key@ ==> lookup(final(entries)@, k) == lookup(
            old(entries)@,
            k,
        ),
        distinct_keys(old(entries)@) ==> distinct_keys(final(entries)@),
        has_key(old(entries)@, key@) ==> final(entries)@.len() == old(entries)@.len(),
        !has_key(old(entries)@, key@) ==> final(entries)@ == old(entries)@.push(
            (key, value),
        ),
{
    let ghost k = key@;
    match find_entry(entries, key.as_str()) {
        Some(i) => {
            let ghost before = entries@;
            let (_, previous) = entries.remove(i);
            entries.insert(i, (key, value));
            let ghost after = entries@;
            assert(after =~= before.update(i as int, after[i as int]));
            proof {
                lemma_lookup_at(before, k, i as int);
                assert(first_key_index(after, k, i as int));
                lemma_lookup_at(after, k, i as int);
                assert forall|k2: Seq<char>| k2 != k implies lookup(after, k2) == lookup(
                    before,
                    k2,
                ) by {
                    assert forall|j: int| 0 <= j < after.len() implies (after[j].0@ == k2
                        <==> before[j].0@ == k2) by {}
                    if has_key(before, k2) {
                        lemma_first_key_index_exists(before, k2);
                        let f = choose|f: int| first_key_index(before, k2, f);
                        assert(first_key_index(after, k2, f));
                        lemma_lookup_at(before, k2, f);
                        lemma_lookup_at(after, k2, f);
                    }
                }
            }
            Some(previous)
        },
        None => {
            let ghost before = entries@;
            entries.push((key, value));
            let ghost after = entries@;
            proof {
                assert(first_key_index(after, k, before.len() as int));
                lemma_lookup_at(after, k, before.len() as int);
                assert forall|k2: Seq<char>| k2 != k implies lookup(after, k2) == lookup(
                    before,
                    k2,
                ) by {
                    if has_key(before, k2) {
                        lemma_first_key_index_exists(before, k2);
                        let f = choose|f: int| first_key_index(before, k2, f);
                        assert(first_key_index(after, k2, f));
                        lemma_lookup_at(before, k2, f);
                        lemma_lookup_at(after, k2, f);
                    } else {
                        assert(!has_key(after, k2));
                    }
                }
            }
            None
        },
    }
}

impl View for JsonMap {
    type V = Seq<(String, JsonValue)>;

    /// The entries, in order.
    closed spec fn view(&self) -> Seq<(String, JsonValue)> {
        self.entries@
    }
}

impl JsonMap {
    /// No key occurs twice.
    #[verifier::type_invariant]
    spec fn keys_unique(self) -> bool {
        distinct_keys(self@)
    }

    /// An object with one entry.
    pub fn single(key: String, value: JsonValue) -> (r: JsonMap)
        ensures
            r@ == seq![(key, value)],
    {
        let mut entries: Vec<(String, JsonValue)> = Vec::new();
        entries.push((key, value));
        JsonMap { entries }
    }

    /// The entries, in order.
    pub fn entries(&self) -> (r: &Vec<(String, JsonValue)>)
        ensures
            r@ == self@,
            distinct_keys(r@),
    {
        proof {
            use_type_invariant(self);
        }
        &self.entries
    }

    /// The entries, in order, taken out of the object.
    pub fn into_entries(self) -> (r: Vec<(String, JsonValue)>)
        ensures
            r@ == self@,
            distinct_keys(r@),
    {
        proof {
            use_type_invariant(&self);
        }
        self.entries
    }

    /// An empty object.
    pub fn new() -> (r: JsonMap)
        ensures
            r@.len() == 0,
    {
        JsonMap { entries: Vec::new() }
    }

    /// The number of entries.
    pub fn len(&self) -> (r: usize)
        ensures
            r == self@.len(),
    {
        self.entries.len()
    }

    /// Whether there is no entry.
    pub fn is_empty(&self) -> (r: bool)
        ensures
            r == (self@.len() == 0),
    {
        self.entries.len() == 0
    }

    /// The index of the first entry with key `key`.
    fn find(&self, key: &str) -> (r: Option<usize>)
        ensures
            r matches Some(i) ==> first_key_index(self@, key@, i as int),
            r is None ==> !has_key(self@, key@),
    {
        find_entry(&self.entries, key)
    }

    /// The value of the first entry with key `key`.
    pub fn get(&self, key: &str) -> (r: Option<&JsonValue>)
        ensures
            r matches Some(v) ==> lookup(self@, key@) == Some(*v),
            r is None ==> lookup(self@, key@) is None,
    {
        match self.find(key) {
            Some(i) => {
                proof {
                    lemma_lookup_at(self@, key@, i as int);
                }
                Some(&self.entries[i].1)
            },
            None => None,
        }
    }

    /// Sets the value of `key`: the first entry with that key gets the new
    /// value in its place, or a new entry goes at the end. Gives back the
    /// value that was replaced.
    pub fn insert(&mut self, key: String, value: JsonValue) -> (r: Option<JsonValue>)
        ensures
            r == lookup(old(self)@, key@),
            lookup(final(self)@, key@) == Some(value),
            forall|k: Seq<char>| k != key@ ==> lookup(final(self)@, k) == lookup(
                old(self)@,
                k,
            ),
            has_key(old(self)@, key@) ==> final(self)@.len() == old(
                self,
            )@.len(),
            !has_key(old(self)@, key@) ==> final(self)@ == old(self)@.push(
                (key, value),
            ),
    {
        proof {
            use_type_invariant(&*self);
        }
        let mut entries: Vec<(String, JsonValue)> = Vec::new();
        std::mem::swap(&mut entries, &mut self.entries);
        let r = insert_entry(&mut entries, key, value);
        self.entries = entries;
        r
    }
}

impl JsonValue {
    /// The object inside, if this is an object.
    pub fn as_object(&self) -> (r: Option<&JsonMap>)
        ensures
            r matches Some(m) ==> *self == JsonValue::Object(*m),
            r is None ==> !(*self is Object),
    {
        match self {
            JsonValue::Object(m) => Some(m),
            _ => None,
        }
    }

    /// The boolean inside, if this is a boolean.
    pub fn as_bool(&self) -> (r: Option<bool>)
        ensures
            r matches Some(b) ==> *self == JsonValue::Bool(b),
            r is None ==> !(*self is Bool),
    {
        match self {
            JsonValue::Bool(b) => Some(*b),
            _ => None,
        }
    }

    /// The text inside, if this is a string.
    pub fn as_str(&self) -> (r: Option<&str>)
        ensures
            r matches Some(s) ==> *self is Text && s@ == self->Text_0@,
            r is None ==> !(*self is Text),
    {
        match self {
            JsonValue::Text(s) => Some(s.as_str()),
            _ => None,
        }
    }
}

/// A protocol message, as it travels between the server and a client.
#[derive(Debug, PartialEq)]
pub struct TcpMessage {
    /// What kind of message this is.
    pub send_type: String,
    /// The command, or the error level, that the message carries.
    pub command: String,
    /// The UUID of the player that the message concerns, as text.
    pub uuid: String,
    /// Data sent: per player UUID text, an object of named values.
    pub send_data: JsonMap,
    /// Data requested: per player UUID text, what is asked for.
    pub request_data: JsonMap,
}

} // verus!
