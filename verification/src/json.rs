use vstd::prelude::*;
use crate::text::str_eq;

verus! {

/// A JSON number as the wire format carries it: a non-negative integer, a
/// negative integer, or a floating-point value kept by its IEEE-754 bits.
#[derive(Clone, Copy, Debug, PartialEq, Eq, Structural)]
pub enum JsonNumber {
    PosInt(u64),
    NegInt(i64),
    Float(u64),
}

/// A JSON value: the documents that the model, the tool schemas and the
/// protocol messages exchange.  Object members keep their insertion order.
#[derive(Debug)]
pub enum JsonValue {
    Null,
    Bool(bool),
    Number(JsonNumber),
    String(String),
    Array(Vec<JsonValue>),
    Object(Vec<(String, JsonValue)>),
}

/// The mathematical JSON document.
pub enum Json {
    Null,
    Bool(bool),
    Number(JsonNumber),
    String(Seq<char>),
    Array(Seq<Json>),
    Object(Seq<(Seq<char>, Json)>),
}

pub open spec fn json_of(v: JsonValue) -> Json
    decreases v,
{
    match v {
        JsonValue::Null => Json::Null,
        JsonValue::Bool(b) => Json::Bool(b),
        JsonValue::Number(n) => Json::Number(n),
        JsonValue::String(s) => Json::String(s@),
        JsonValue::Array(items) => Json::Array(json_items(items@)),
        JsonValue::Object(entries) => Json::Object(json_entries(entries@)),
    }
}

pub open spec fn json_items(items: Seq<JsonValue>) -> Seq<Json>
    decreases items,
{
    if items.len() == 0 {
        Seq::empty()
    } else {
        json_items(items.subrange(0, items.len() - 1)).push(json_of(items[items.len() - 1]))
    }
}

pub open spec fn json_entries(entries: Seq<(String, JsonValue)>) -> Seq<(Seq<char>, Json)>
    decreases entries,
{
    if entries.len() == 0 {
        Seq::empty()
    } else {
        let last = entries[entries.len() - 1];
        json_entries(entries.subrange(0, entries.len() - 1)).push((last.0@, json_of(last.1)))
    }
}

impl View for JsonValue {
    type V = Json;

    open spec fn view(&self) -> Json {
        json_of(*self)
    }
}

/// The position of the first member named `key`, if any.
pub open spec fn first_member(entries: Seq<(Seq<char>, Json)>, key: Seq<char>) -> Option<int> {
    if exists|i: int| 0 <= i < entries.len() && entries[i].0 == key {
        Some(
            choose|i: int|
                0 <= i < entries.len() && entries[i].0 == key && forall|j: int|
                    0 <= j < i ==> entries[j].0 != key,
        )
    } else {
        None
    }
}

/// The members after setting `key` to `value`: the first member of that name
/// takes the new value in place; otherwise the member is added at the end.
pub open spec fn members_insert(entries: Seq<(Seq<char>, Json)>, key: Seq<char>, value: Json) -> Seq<
    (Seq<char>, Json),
> {
    match first_member(entries, key) {
        Some(i) => entries.update(i, (key, value)),
        None => entries.push((key, value)),
    }
}

/// The value of member `key` of an object; `None` for a missing member or a
/// value that is not an object.
pub open spec fn lookup(j: Json, key: Seq<char>) -> Option<Json> {
    match j {
        Json::Object(entries) => match first_member(entries, key) {
            Some(i) => Some(entries[i].1),
            None => None,
        },
        _ => None,
    }
}

/// The text of a JSON string.
pub open spec fn text_of(j: Json) -> Option<Seq<char>> {
    match j {
        Json::String(s) => Some(s),
        _ => None,
    }
}

/// The value of a JSON number as a signed 64-bit integer, when it is one.
pub open spec fn int_of(j: Json) -> Option<i64> {
    match j {
        Json::Number(JsonNumber::PosInt(n)) => if n <= i64::MAX {
            Some(n as i64)
        } else {
            None
        },
        Json::Number(JsonNumber::NegInt(n)) => Some(n),
        _ => None,
    }
}

/// The text of member `key`, when the member exists and is a string.
pub open spec fn member_text(j: Json, key: Seq<char>) -> Option<Seq<char>> {
    match lookup(j, key) {
        Some(v) => text_of(v),
        None => None,
    }
}

/// The integer of member `key`, when the member exists and is an integer.
pub open spec fn member_int(j: Json, key: Seq<char>) -> Option<i64> {
    match lookup(j, key) {
        Some(v) => int_of(v),
        None => None,
    }
}

/// No two members share a name.
pub open spec fn names_distinct(entries: Seq<(Seq<char>, Json)>) -> bool {
    forall|i: int, j: int| 0 <= i < j < entries.len() ==> entries[i].0 != entries[j].0
}

/// Reading a member back after setting it gives the value set, and the
/// other members read as before.
pub proof fn lemma_insert_then_lookup(
    entries: Seq<(Seq<char>, Json)>,
    key: Seq<char>,
    value: Json,
    other: Seq<char>,
)
    ensures
        lookup(Json::Object(members_insert(entries, key, value)), key) == Some(value),
        other != key ==> lookup(Json::Object(members_insert(entries, key, value)), other) == lookup(
            Json::Object(entries),
            other,
        ),
{
    let after = members_insert(entries, key, value);
    match first_member(entries, key) {
        Some(i) => {
            lemma_first_member_bounds(entries, key);
            lemma_first_member_at(after, key, i);
        },
        None => {
            assert forall|j: int| 0 <= j < entries.len() implies entries[j].0 != key by {
                if entries[j].0 == key {
                    assert(exists|i: int| 0 <= i < entries.len() && entries[i].0 == key);
                }
            }
            lemma_first_member_at(after, key, entries.len() as int);
        },
    }
    if other != key {
        match first_member(entries, other) {
            Some(k) => {
                lemma_first_member_bounds(entries, other);
                lemma_first_member_at(after, other, k);
            },
            None => {
                assert forall|j: int| 0 <= j < after.len() implies after[j].0 != other by {
                    if j < entries.len() && entries[j].0 == other {
                        assert(exists|i: int| 0 <= i < entries.len() && entries[i].0 == other);
                    }
                }
            },
        }
    }
}

/// The first member named `key`, when there is one, is named `key` and no
/// member before it is.
pub proof fn lemma_first_member_bounds(entries: Seq<(Seq<char>, Json)>, key: Seq<char>)
    ensures
        match first_member(entries, key) {
            Some(i) => 0 <= i < entries.len() && entries[i].0 == key && forall|j: int|
                0 <= j < i ==> entries[j].0 != key,
            None => forall|j: int| 0 <= j < entries.len() ==> entries[j].0 != key,
        },
{
    if exists|i: int| 0 <= i < entries.len() && entries[i].0 == key {
        let w = choose|i: int| 0 <= i < entries.len() && entries[i].0 == key;
        lemma_least_member(entries, key, w);
    }
}

/// Below a member named `key` there is a first one.
proof fn lemma_least_member(entries: Seq<(Seq<char>, Json)>, key: Seq<char>, w: int)
    requires
        0 <= w < entries.len(),
        entries[w].0 == key,
    ensures
        exists|i: int|
            0 <= i < entries.len() && entries[i].0 == key && forall|j: int|
                0 <= j < i ==> entries[j].0 != key,
    decreases w,
{
    if exists|j: int| 0 <= j < w && entries[j].0 == key {
        let j = choose|j: int| 0 <= j < w && entries[j].0 == key;
        lemma_least_member(entries, key, j);
    } else {
        assert(forall|j: int| 0 <= j < w ==> entries[j].0 != key);
    }
}

/// Setting a member keeps the member names distinct.
pub proof fn lemma_insert_keeps_names_distinct(entries: Seq<(Seq<char>, Json)>, key: Seq<char>, value: Json)
    requires
        names_distinct(entries),
    ensures
        names_distinct(members_insert(entries, key, value)),
{
    lemma_first_member_bounds(entries, key);
    let after = members_insert(entries, key, value);
    assert forall|i: int, j: int| 0 <= i < j < after.len() implies (#[trigger] after[i]).0 != (
    #[trigger] after[j]).0 by {
        match first_member(entries, key) {
            Some(k) => {
                if i != k && j != k {
                    assert(entries[i].0 != entries[j].0);
                } else if i == k {
                    assert(entries[k].0 != entries[j].0);
                } else {
                    assert(entries[i].0 != entries[k].0);
                }
            },
            None => {
                if j == entries.len() {
                    assert(entries[i].0 != key);
                } else {
                    assert(entries[i].0 != entries[j].0);
                }
            },
        }
    }
}

pub proof fn lemma_json_items(items: Seq<JsonValue>)
    ensures
        json_items(items).len() == items.len(),
        forall|i: int| 0 <= i < items.len() ==> #[trigger] json_items(items)[i] == json_of(items[i]),
    decreases items.len(),
{
    if items.len() > 0 {
        lemma_json_items(items.subrange(0, items.len() - 1));
    }
}

pub proof fn lemma_json_entries(entries: Seq<(String, JsonValue)>)
    ensures
        json_entries(entries).len() == entries.len(),
        forall|i: int|
            0 <= i < entries.len() ==> #[trigger] json_entries(entries)[i] == (
                entries[i].0@,
                json_of(entries[i].1),
            ),
    decreases entries.len(),
{
    if entries.len() > 0 {
        lemma_json_entries(entries.subrange(0, entries.len() - 1));
    }
}

/// Appending a value appends its view.
pub proof fn lemma_json_items_push(items: Seq<JsonValue>, v: JsonValue)
    ensures
        json_items(items.push(v)) == json_items(items).push(json_of(v)),
{
    assert(items.push(v).subrange(0, items.len() as int) =~= items);
}

/// Appending a member appends its view.
pub proof fn lemma_json_entries_push(entries: Seq<(String, JsonValue)>, e: (String, JsonValue))
    ensures
        json_entries(entries.push(e)) == json_entries(entries).push((e.0@, json_of(e.1))),
{
    assert(entries.push(e).subrange(0, entries.len() as int) =~= entries);
}

/// The first member named `key` sits at `i`.
pub proof fn lemma_first_member_at(entries: Seq<(Seq<char>, Json)>, key: Seq<char>, i: int)
    requires
        0 <= i < entries.len(),
        entries[i].0 == key,
        forall|j: int| 0 <= j < i ==> entries[j].0 != key,
    ensures
        first_member(entries, key) == Some(i),
{
    let k = choose|k: int|
        0 <= k < entries.len() && entries[k].0 == key && forall|j: int| 0 <= j < k ==> entries[j].0 != key;
    if k < i {
        assert(entries[k].0 != key);
    } else if k > i {
        assert(entries[i].0 != key);
    }
}

/// Sets member `key` among an object's members: an existing member takes the
/// new value in its place, and a new one goes last.  Members are kept in the
/// order they were first set; the value a key stands for is the same as after
/// an insert into a map.
pub fn object_insert(entries: &mut Vec<(String, JsonValue)>, key: String, value: JsonValue)
    ensures
        json_entries(final(entries)@) == members_insert(json_entries(old(entries)@), key@, value@),
{
    let ghost before = json_entries(entries@);
    proof {
        lemma_json_entries(entries@);
    }
    let mut i: usize = 0;
    while i < entries.len()
        invariant
            i <= entries.len(),
            before == json_entries(entries@),
            before == json_entries(old(entries)@),
            before.len() == entries.len(),
            forall|j: int| 0 <= j < entries.len() ==> #[trigger] before[j] == (entries@[j].0@, json_of(entries@[j].1)),
            forall|j: int| 0 <= j < i ==> before[j].0 != key@,
        decreases entries.len() - i,
    {
        if str_eq(entries[i].0.as_str(), key.as_str()) {
            proof {
                lemma_first_member_at(before, key@, i as int);
            }
            let ghost old_entries = entries@;
            let ghost kv = key@;
            let ghost vv = value@;
            entries.set(i, (key, value));
            proof {
                lemma_json_entries(entries@);
                assert(json_entries(entries@) =~= before.update(i as int, (kv, vv)));
            }
            return;
        }
        i = i + 1;
    }
    proof {
        assert(!(exists|j: int| 0 <= j < before.len() && before[j].0 == key@));
        lemma_json_entries_push(entries@, (key, value));
    }
    entries.push((key, value));
}

impl JsonValue {
    /// The value of member `key`, as `serde_json::Value::get` with a text key.
    pub fn get(&self, key: &str) -> (r: Option<&JsonValue>)
        ensures
            match r {
                Some(x) => lookup(self@, key@) == Some(x@),
                None => lookup(self@, key@) is None,
            },
    {
        match self {
            JsonValue::Object(entries) => {
                proof {
                    lemma_json_entries(entries@);
                }
                let ghost es = json_entries(entries@);
                let mut i: usize = 0;
                while i < entries.len()
                    invariant
                        *self == JsonValue::Object(*entries),
                        es == json_entries(entries@),
                        es.len() == entries.len(),
                        forall|j: int| 0 <= j < entries.len() ==> #[trigger] es[j] == (entries@[j].0@, json_of(entries@[j].1)),
                        i <= entries.len(),
                        forall|j: int| 0 <= j < i ==> es[j].0 != key@,
                    decreases entries.len() - i,
                {
                    if str_eq(entries[i].0.as_str(), key) {
                        proof {
                            lemma_first_member_at(es, key@, i as int);
                        }
                        return Some(&entries[i].1);
                    }
                    i = i + 1;
                }
                None
            },
            _ => None,
        }
    }

    /// The text of a JSON string, as `serde_json::Value::as_str`.
    pub fn as_str(&self) -> (r: Option<&str>)
        ensures
            match r {
                Some(s) => text_of(self@) == Some(s@),
                None => text_of(self@) is None,
            },
    {
        match self {
            JsonValue::String(s) => Some(s.as_str()),
            _ => None,
        }
    }

    /// The number as a signed 64-bit integer, as `serde_json::Value::as_i64`.
    pub fn as_i64(&self) -> (r: Option<i64>)
        ensures
            r == int_of(self@),
    {
        match self {
            JsonValue::Number(JsonNumber::PosInt(n)) => {
                if *n <= 0x7fff_ffff_ffff_ffffu64 {
                    Some(*n as i64)
                } else {
                    None
                }
            },
            JsonValue::Number(JsonNumber::NegInt(n)) => Some(*n),
            _ => None,
        }
    }

    /// The text of member `key`, when it is a string.
    pub fn member_str(&self, key: &str) -> (r: Option<String>)
        ensures
            match r {
                Some(s) => member_text(self@, key@) == Some(s@),
                None => member_text(self@, key@) is None,
            },
    {
        match self.get(key) {
            Some(v) => match v.as_str() {
                Some(s) => Some(String::from_str(s)),
                None => None,
            },
            None => None,
        }
    }

    /// The integer of member `key`, when it is one.
    pub fn member_i64(&self, key: &str) -> (r: Option<i64>)
        ensures
            r == member_int(self@, key@),
    {
        match self.get(key) {
            Some(v) => v.as_i64(),
            None => None,
        }
    }

    /// A JSON string holding `s`.
    pub fn text(s: &str) -> (r: JsonValue)
        ensures
            r@ == Json::String(s@),
    {
        JsonValue::String(String::from_str(s))
    }

    /// An independent copy of the value.
    pub fn deep_copy(&self) -> (r: JsonValue)
        ensures
            r@ == self@,
        decreases self,
    {
        match self {
            JsonValue::Null => JsonValue::Null,
            JsonValue::Bool(b) => JsonValue::Bool(*b),
            JsonValue::Number(n) => JsonValue::Number(*n),
            JsonValue::String(s) => JsonValue::String(s.clone()),
            JsonValue::Array(items) => {
                let mut out: Vec<JsonValue> = Vec::new();
                let mut i: usize = 0;
                while i < items.len()
                    invariant
                        *self == JsonValue::Array(*items),
                        i <= items.len(),
                        json_items(out@) == json_items(items@.subrange(0, i as int)),
                    decreases items.len() - i,
                {
                    proof {
                        assert(decreases_to!(*self => self->Array_0));
                        assert(decreases_to!(*items => items@));
                        assert(decreases_to!(items@ => items@[i as int]));
                    }
                    let c = items[i].deep_copy();
                    proof {
                        lemma_json_items_push(out@, c);
                        lemma_json_items_push(items@.subrange(0, i as int), items@[i as int]);
                        assert(items@.subrange(0, i as int).push(items@[i as int])
                            =~= items@.subrange(0, i + 1));
                    }
                    out.push(c);
                    i = i + 1;
                }
                assert(items@.subrange(0, items.len() as int) =~= items@);
                JsonValue::Array(out)
            },
            JsonValue::Object(entries) => {
                let mut out: Vec<(String, JsonValue)> = Vec::new();
                let mut i: usize = 0;
                while i < entries.len()
                    invariant
                        *self == JsonValue::Object(*entries),
                        i <= entries.len(),
                        json_entries(out@) == json_entries(entries@.subrange(0, i as int)),
                    decreases entries.len() - i,
                {
                    proof {
                        assert(decreases_to!(*self => self->Object_0));
                        assert(decreases_to!(*entries => entries@));
                        assert(decreases_to!(entries@ => entries@[i as int]));
                        assert(decreases_to!(entries@[i as int] => entries@[i as int].1));
                    }
                    let c = entries[i].1.deep_copy();
                    let k = entries[i].0.clone();
                    proof {
                        lemma_json_entries_push(out@, (k, c));
                        lemma_json_entries_push(entries@.subrange(0, i as int), entries@[i as int]);
                        assert(entries@.subrange(0, i as int).push(entries@[i as int])
                            =~= entries@.subrange(0, i + 1));
                    }
                    out.push((k, c));
                    i = i + 1;
                }
                assert(entries@.subrange(0, entries.len() as int) =~= entries@);
                JsonValue::Object(out)
            },
        }
    }
}

} // verus!
