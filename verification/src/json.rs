//! JSON values as the compiler reads them, and what they stand for.

use vstd::prelude::*;
use crate::text::str_eq;

verus! {

/// A JSON number as the compiler reads it.
#[derive(Debug, PartialEq, Eq)]
pub enum JsonNumber {
    /// A non-negative integer that fits in 64 bits.
    Unsigned(u64),
    /// Any other number, held as its canonical JSON text.
    Other(String),
}

/// A JSON value. An object keeps its members in the order in which they
/// were declared.
#[derive(Debug, PartialEq, Eq)]
pub enum Json {
    Null,
    Bool(bool),
    Number(JsonNumber),
    String(String),
    Array(Vec<Json>),
    Object(JsonMap),
}

/// The members of a JSON object, in declaration order. A name may stand
/// more than once; the first member of a name is the one that is found.
#[derive(Debug, PartialEq, Eq)]
pub struct JsonMap {
    pub entries: Vec<(String, Json)>,
}

/// What a `JsonNumber` stands for.
pub enum NumberValue {
    Unsigned(u64),
    Other(Seq<char>),
}

/// What a `Json` stands for: the same tree over sequences.
pub enum JsonValue {
    Null,
    Bool(bool),
    Number(NumberValue),
    String(Seq<char>),
    Array(Seq<JsonValue>),
    Object(Members),
}

impl View for JsonNumber {
    type V = NumberValue;

    open spec fn view(&self) -> NumberValue {
        match self {
            JsonNumber::Unsigned(n) => NumberValue::Unsigned(*n),
            JsonNumber::Other(text) => NumberValue::Other(text@),
        }
    }
}

impl View for Json {
    type V = JsonValue;

    open spec fn view(&self) -> JsonValue
        decreases self,
    {
        match self {
            Json::Null => JsonValue::Null,
            Json::Bool(b) => JsonValue::Bool(*b),
            Json::Number(n) => JsonValue::Number(n@),
            Json::String(s) => JsonValue::String(s@),
            Json::Array(items) => JsonValue::Array(
                Seq::new(
                    items@.len(),
                    |i: int|
                        if 0 <= i < items@.len() {
                            items@[i].view()
                        } else {
                            JsonValue::Null
                        },
                ),
            ),
            Json::Object(map) => JsonValue::Object(
                Seq::new(
                    map.entries@.len(),
                    |i: int|
                        if 0 <= i < map.entries@.len() {
                            (map.entries@[i].0@, map.entries@[i].1.view())
                        } else {
                            (Seq::empty(), JsonValue::Null)
                        },
                ),
            ),
        }
    }
}

impl View for JsonMap {
    type V = Members;

    open spec fn view(&self) -> Members {
        Seq::new(self.entries@.len(), |i: int| (self.entries@[i].0@, self.entries@[i].1@))
    }
}

/// The members of an object, as the contracts speak of them: names and
/// values in declaration order.
pub type Members = Seq<(Seq<char>, JsonValue)>;

/// The values that a vector of `Json` stands for.
pub open spec fn values_view(items: Seq<Json>) -> Seq<JsonValue> {
    Seq::new(items.len(), |i: int| items[i]@)
}

/// An array stands for the values of its items.
pub proof fn lemma_array_view(json: Json)
    requires
        json is Array,
    ensures
        json@ == JsonValue::Array(values_view(json->Array_0@)),
{
    reveal_with_fuel(<Json as View>::view, 2);
    assert(json@->Array_0 =~= values_view(json->Array_0@));
}

/// An object stands for the names and values of its members.
pub proof fn lemma_object_view(json: Json)
    requires
        json is Object,
    ensures
        json@ == JsonValue::Object(json->Object_0@),
{
    reveal_with_fuel(<Json as View>::view, 2);
    assert(json@->Object_0 =~= json->Object_0@);
}

/// The index of the first member called `key` among the first `n`.
pub open spec fn position_within(
    entries: Members,
    key: Seq<char>,
    n: int,
) -> Option<int>
    decreases n,
{
    if n <= 0 {
        None
    } else {
        match position_within(entries, key, n - 1) {
            Some(i) => Some(i),
            None => if entries[n - 1].0 == key {
                Some(n - 1)
            } else {
                None
            },
        }
    }
}

/// The index of the first member called `key`.
pub open spec fn position(entries: Members, key: Seq<char>) -> Option<int> {
    position_within(entries, key, entries.len() as int)
}

/// The value of the first member called `key`.
pub open spec fn lookup(entries: Members, key: Seq<char>) -> Option<
    JsonValue,
> {
    match position(entries, key) {
        Some(i) => Some(entries[i].1),
        None => None,
    }
}

/// Whether some member is called `key`.
pub open spec fn has_key(entries: Members, key: Seq<char>) -> bool {
    position(entries, key) is Some
}

/// The number that `value` holds, where it is a non-negative integer of
/// 64 bits.
pub open spec fn value_as_u64(value: JsonValue) -> Option<u64> {
    match value {
        JsonValue::Number(NumberValue::Unsigned(n)) => Some(n),
        _ => None,
    }
}

/// The text that `value` holds, where it is a string.
pub open spec fn value_as_str(value: JsonValue) -> Option<Seq<char>> {
    match value {
        JsonValue::String(s) => Some(s),
        _ => None,
    }
}

/// The member `key` read as a non-negative integer; `None` where it is
/// missing or anything else.
pub open spec fn lookup_u64(entries: Members, key: Seq<char>) -> Option<u64> {
    match lookup(entries, key) {
        Some(v) => value_as_u64(v),
        None => None,
    }
}

/// The member `key` read as a string; `None` where it is missing or
/// anything else.
pub open spec fn lookup_str(entries: Members, key: Seq<char>) -> Option<
    Seq<char>,
> {
    match lookup(entries, key) {
        Some(v) => value_as_str(v),
        None => None,
    }
}

/// A found position lies within the members and names the key.
pub proof fn lemma_position_within(entries: Members, key: Seq<char>, n: int)
    requires
        0 <= n <= entries.len(),
    ensures
        match position_within(entries, key, n) {
            Some(i) => 0 <= i < n && entries[i].0 == key && forall|j: int|
                0 <= j < i ==> entries[j].0 != key,
            None => forall|j: int| 0 <= j < n ==> entries[j].0 != key,
        },
    decreases n,
{
    if n > 0 {
        lemma_position_within(entries, key, n - 1);
    }
}

impl Json {
    /// The number held, where the value is a non-negative integer.
    pub fn as_u64(&self) -> (n: Option<u64>)
        ensures
            n == value_as_u64(self@),
    {
        match self {
            Json::Number(JsonNumber::Unsigned(n)) => Some(*n),
            _ => None,
        }
    }

    /// The text held, where the value is a string.
    pub fn as_str(&self) -> (s: Option<&str>)
        ensures
            match s {
                Some(t) => value_as_str(self@) == Some(t@),
                None => value_as_str(self@) is None,
            },
    {
        match self {
            Json::String(s) => Some(s.as_str()),
            _ => None,
        }
    }
}

impl JsonMap {
    /// An object without members.
    pub fn new() -> (map: JsonMap)
        ensures
            map@ == Seq::<(Seq<char>, JsonValue)>::empty(),
    {
        let map = JsonMap { entries: Vec::new() };
        assert(map@ =~= Seq::<(Seq<char>, JsonValue)>::empty());
        map
    }

    /// The number of members.
    pub fn len(&self) -> (n: usize)
        ensures
            n == self@.len(),
    {
        self.entries.len()
    }

    /// Whether the object has no member.
    pub fn is_empty(&self) -> (empty: bool)
        ensures
            empty == (self@.len() == 0),
    {
        self.entries.len() == 0
    }

    /// Adds a member behind the others.
    pub fn push(&mut self, key: String, value: Json)
        ensures
            final(self)@ == old(self)@.push((key@, value@)),
    {
        self.entries.push((key, value));
        assert(final(self)@ =~= old(self)@.push((key@, value@)));
    }

    /// The index of the first member called `key`.
    pub fn position(&self, key: &str) -> (found: Option<usize>)
        ensures
            match found {
                Some(i) => position(self@, key@) == Some(i as int) && i < self.entries@.len(),
                None => position(self@, key@) is None,
            },
    {
        let n = self.entries.len();
        let mut i: usize = 0;
        while i < n
            invariant
                n == self.entries@.len(),
                i <= n,
                position_within(self@, key@, i as int) is None,
            decreases n - i,
        {
            if str_eq(self.entries[i].0.as_str(), key) {
                proof {
                    let ghost found = position_within(self@, key@, i as int + 1);
                    assert(found == Some(i as int));
                    lemma_position_stays(self@, key@, i as int + 1, n as int);
                }
                return Some(i);
            }
            i += 1;
        }
        None
    }

    /// Whether some member is called `key`.
    pub fn contains_key(&self, key: &str) -> (found: bool)
        ensures
            found == has_key(self@, key@),
    {
        self.position(key).is_some()
    }

    /// The value of the first member called `key`.
    pub fn get(&self, key: &str) -> (found: Option<&Json>)
        ensures
            match found {
                Some(v) => lookup(self@, key@) == Some(v@),
                None => lookup(self@, key@) is None,
            },
    {
        match self.position(key) {
            Some(i) => Some(&self.entries[i].1),
            None => None,
        }
    }

    /// The member `key` read as a non-negative integer.
    pub fn get_u64(&self, key: &str) -> (n: Option<u64>)
        ensures
            n == lookup_u64(self@, key@),
    {
        match self.get(key) {
            Some(v) => v.as_u64(),
            None => None,
        }
    }

    /// The member `key` read as a string.
    pub fn get_str(&self, key: &str) -> (s: Option<&str>)
        ensures
            match s {
                Some(t) => lookup_str(self@, key@) == Some(t@),
                None => lookup_str(self@, key@) is None,
            },
    {
        match self.get(key) {
            Some(v) => v.as_str(),
            None => None,
        }
    }
}

/// Once a key is found among the first `n` members, it is found at the
/// same place among more of them.
pub proof fn lemma_position_stays(
    entries: Members,
    key: Seq<char>,
    n: int,
    m: int,
)
    requires
        0 <= n <= m,
        position_within(entries, key, n) is Some,
    ensures
        position_within(entries, key, m) == position_within(entries, key, n),
    decreases m - n,
{
    if n < m {
        lemma_position_stays(entries, key, n, m - 1);
    }
}

} // verus!
