//! JSON values, and the bytes that carry them.
//!
//! Reading and writing JSON text is `serde_json`'s work. What it reads is turned
//! into [`Json`], on which the host-call wire is decided.
use crate::api::copy_bytes;
use crate::digits::decimal;
use crate::text::str_eq;
use vstd::prelude::*;

verus! {

/// A JSON value.
#[derive(Debug)]
pub enum Json {
    Null,
    Bool(bool),
    /// A number: its value where it is a whole number that 64 unsigned bits
    /// hold, and its text.
    Number(Option<u64>, String),
    Text(String),
    Array(Vec<Json>),
    /// The members, in the order in which they are held.
    Object(Vec<(String, Json)>),
}

/// A JSON value as a mathematical value.
pub enum JsonView {
    Null,
    Bool(bool),
    Number(Option<u64>, Seq<char>),
    Text(Seq<char>),
    Array(Seq<JsonView>),
    Object(Seq<(Seq<char>, JsonView)>),
}

impl Json {
    /// The value as a mathematical value.
    pub open spec fn view(&self) -> JsonView
        decreases self,
    {
        match self {
            Json::Null => JsonView::Null,
            Json::Bool(b) => JsonView::Bool(*b),
            Json::Number(n, t) => JsonView::Number(*n, t@),
            Json::Text(s) => JsonView::Text(s@),
            Json::Array(items) => JsonView::Array(
                Seq::new(
                    items@.len(),
                    |i: int|
                        if 0 <= i < items@.len() {
                            items@[i].view()
                        } else {
                            arbitrary()
                        },
                ),
            ),
            Json::Object(members) => JsonView::Object(
                Seq::new(
                    members@.len(),
                    |i: int|
                        if 0 <= i < members@.len() {
                            (members@[i].0@, members@[i].1.view())
                        } else {
                            arbitrary()
                        },
                ),
            ),
        }
    }
}

/// The member of an object with a name; the first of them, and none where the
/// value is no object.
pub open spec fn member(v: JsonView, key: Seq<char>) -> Option<JsonView> {
    match v {
        JsonView::Object(members) => member_of(members, key),
        _ => None,
    }
}

/// The first member with a name.
pub open spec fn member_of(members: Seq<(Seq<char>, JsonView)>, key: Seq<char>) -> Option<JsonView>
    decreases members.len(),
{
    if members.len() == 0 {
        None
    } else if members[0].0 == key {
        Some(members[0].1)
    } else {
        member_of(members.drop_first(), key)
    }
}

/// The text of a JSON string.
pub open spec fn string_of(v: Option<JsonView>) -> Option<Seq<char>> {
    match v {
        Some(JsonView::Text(s)) => Some(s),
        _ => None,
    }
}

/// The items of a JSON array.
pub open spec fn items_of(v: JsonView) -> Option<Seq<JsonView>> {
    match v {
        JsonView::Array(items) => Some(items),
        _ => None,
    }
}

/// The unsigned whole number that a JSON value is, if it is one.
pub open spec fn unsigned_of(v: JsonView) -> Option<u64> {
    match v {
        JsonView::Number(n, _) => n,
        _ => None,
    }
}

impl Json {
    /// The first member with a name, where the value is an object.
    pub fn get(&self, key: &str) -> (m: Option<&Json>)
        ensures
            match m {
                Some(j) => member(self@, key@) == Some(j@),
                None => member(self@, key@) is None,
            },
    {
        match self {
            Json::Object(members) => {
                let ghost all = self@->Object_0;
                let mut i: usize = 0;
                assert(all.skip(0) =~= all);
                while i < members.len()
                    invariant
                        i <= members@.len(),
                        all.len() == members@.len(),
                        forall|j: int|
                            0 <= j < all.len() ==> #[trigger] all[j] == (
                                members@[j].0@,
                                members@[j].1@,
                            ),
                        member_of(all.skip(i as int), key@) == member_of(all, key@),
                        member(self@, key@) == member_of(all, key@),
                    decreases members.len() - i,
                {
                    assert(all.skip(i as int)[0] == all[i as int]);
                    assert(all.skip(i as int).drop_first() =~= all.skip(i + 1));
                    if str_eq(members[i].0.as_str(), key) {
                        return Some(&members[i].1);
                    }
                    i += 1;
                }
                assert(all.skip(all.len() as int) =~= Seq::empty());
                None
            },
            _ => None,
        }
    }

    /// Whether the value is `true`.
    pub fn is_true(&self) -> (r: bool)
        ensures
            r == (self@ == JsonView::Bool(true)),
    {
        match self {
            Json::Bool(b) => *b,
            _ => false,
        }
    }

    /// The text, where the value is a string.
    pub fn as_str(&self) -> (s: Option<&str>)
        ensures
            match s {
                Some(t) => self@ == JsonView::Text(t@),
                None => !(self@ is Text),
            },
    {
        match self {
            Json::Text(s) => Some(s.as_str()),
            _ => None,
        }
    }

    /// The number, where the value is an unsigned whole number.
    pub fn as_u64(&self) -> (n: Option<u64>)
        ensures
            n == unsigned_of(self@),
    {
        match self {
            Json::Number(n, _) => *n,
            _ => None,
        }
    }
}

impl Clone for Json {
    fn clone(&self) -> (copy: Json)
        ensures
            copy@ == self@,
        decreases self,
    {
        match self {
            Json::Null => Json::Null,
            Json::Bool(b) => Json::Bool(*b),
            Json::Number(n, t) => Json::Number(*n, t.clone()),
            Json::Text(s) => Json::Text(s.clone()),
            Json::Array(items) => {
                let mut out: Vec<Json> = Vec::new();
                let mut i: usize = 0;
                while i < items.len()
                    invariant
                        i <= items@.len(),
                        *self == Json::Array(*items),
                        out@.len() == i,
                        forall|j: int| 0 <= j < i ==> (#[trigger] out@[j])@ == items@[j]@,
                    decreases items.len() - i,
                {
                    proof {
                        assert(decreases_to!(self => self->Array_0));
                        assert(decreases_to!(items => items@));
                        assert(decreases_to!(items@ => items@[i as int]));
                    }
                    out.push(items[i].clone());
                    i += 1;
                }
                let copy = Json::Array(out);
                assert(copy@->Array_0 =~= self@->Array_0);
                copy
            },
            Json::Object(members) => {
                let mut out: Vec<(String, Json)> = Vec::new();
                let mut i: usize = 0;
                while i < members.len()
                    invariant
                        i <= members@.len(),
                        *self == Json::Object(*members),
                        out@.len() == i,
                        forall|j: int|
                            0 <= j < i ==> (#[trigger] out@[j]).0@ == members@[j].0@ && out@[j].1@
                                == members@[j].1@,
                    decreases members.len() - i,
                {
                    proof {
                        assert(decreases_to!(self => self->Object_0));
                        assert(decreases_to!(members => members@));
                        assert(decreases_to!(members@ => members@[i as int]));
                        assert(decreases_to!(members@[i as int] => members@[i as int].1));
                    }
                    let value = members[i].1.clone();
                    out.push((members[i].0.clone(), value));
                    i += 1;
                }
                let copy = Json::Object(out);
                assert(copy@->Object_0 =~= self@->Object_0);
                copy
            },
        }
    }
}

// ── serde_json ──────────────────────────────────────────────────────────────

/// `serde_json`'s value type.
#[verifier::external_type_specification]
#[verifier::external_body]
pub struct ExJsonValue(serde_json::Value);

/// The JSON value that a `serde_json` value holds.
pub uninterp spec fn value_view(v: serde_json::Value) -> JsonView;

/// What `serde_json` reads from bytes: a value, or the message of its error.
pub uninterp spec fn json_text(bytes: Seq<u8>) -> Result<JsonView, Seq<char>>;

/// What `serde_json` writes for a value: bytes, or the message of its error.
pub uninterp spec fn json_bytes(v: JsonView) -> Result<Seq<u8>, Seq<char>>;

/// One level of a `serde_json` value.
pub enum JsonNode<'a> {
    Null,
    Bool(bool),
    Number(Option<u64>, String),
    Text(String),
    Array(&'a Vec<serde_json::Value>),
    Object(Vec<(String, &'a serde_json::Value)>),
}

/// The JSON values of a list of `serde_json` values.
pub open spec fn item_views(items: Seq<serde_json::Value>) -> Seq<JsonView> {
    items.map_values(|v: serde_json::Value| value_view(v))
}

/// The members of an object's `serde_json` members.
pub open spec fn member_views(members: Seq<(String, &serde_json::Value)>) -> Seq<
    (Seq<char>, JsonView),
> {
    members.map_values(|m: (String, &serde_json::Value)| (m.0@, value_view(*m.1)))
}

/// The variants of `serde_json::Value`, with `Number::as_u64` and the `Display`
/// of a number, and an object's members in the order of its iterator.
#[verifier::external_body]
fn open_value(v: &serde_json::Value) -> (node: JsonNode<'_>)
    ensures
        value_view(*v) == (match node {
            JsonNode::Null => JsonView::Null,
            JsonNode::Bool(b) => JsonView::Bool(b),
            JsonNode::Number(n, t) => JsonView::Number(n, t@),
            JsonNode::Text(s) => JsonView::Text(s@),
            JsonNode::Array(items) => JsonView::Array(item_views(items@)),
            JsonNode::Object(members) => JsonView::Object(member_views(members@)),
        }),
{
    match v {
        serde_json::Value::Null => JsonNode::Null,
        serde_json::Value::Bool(b) => JsonNode::Bool(*b),
        serde_json::Value::Number(n) => JsonNode::Number(n.as_u64(), n.to_string()),
        serde_json::Value::String(s) => JsonNode::Text(s.clone()),
        serde_json::Value::Array(items) => JsonNode::Array(items),
        serde_json::Value::Object(m) => {
            JsonNode::Object(m.iter().map(|(k, v)| (k.clone(), v)).collect())
        },
    }
}

/// `serde_json::from_slice` for a value: what it reads is a function of the
/// bytes, and so is the message of its error.
#[verifier::external_body]
fn read_value(bytes: &[u8]) -> (r: Result<serde_json::Value, String>)
    ensures
        match r {
            Ok(v) => json_text(bytes@) == Ok::<JsonView, Seq<char>>(value_view(v)),
            Err(m) => json_text(bytes@) == Err::<JsonView, Seq<char>>(m@),
        },
{
    serde_json::from_slice(bytes).map_err(|e| e.to_string())
}

/// Whether a value is a string or an array of unsigned whole numbers.
pub open spec fn is_flat(v: JsonView) -> bool {
    match v {
        JsonView::Text(_) => true,
        JsonView::Array(items) => forall|i: int|
            0 <= i < items.len() ==> (#[trigger] items[i] matches JsonView::Number(Some(n), t) && t
                == decimal(n as nat)),
        _ => false,
    }
}

/// Whether a value is an object of strings and arrays of unsigned whole numbers.
pub open spec fn is_flat_object(v: JsonView) -> bool {
    v matches JsonView::Object(members) && forall|i: int|
        0 <= i < members.len() ==> is_flat((#[trigger] members[i]).1)
}

/// Whether bytes are read as a value.
pub open spec fn reads_as(bytes: Seq<u8>, v: JsonView) -> bool {
    json_text(bytes) == Ok::<JsonView, Seq<char>>(v)
}

/// `serde_json::to_vec` for a value: what it writes is a function of the value,
/// and so is the message of its error. An object of strings and arrays of
/// unsigned whole numbers is always written, and read back as the same value.
#[verifier::external_body]
fn write_value(v: &serde_json::Value) -> (r: Result<Vec<u8>, String>)
    ensures
        match r {
            Ok(bytes) => json_bytes(value_view(*v)) == Ok::<Seq<u8>, Seq<char>>(bytes@),
            Err(m) => json_bytes(value_view(*v)) == Err::<Seq<u8>, Seq<char>>(m@),
        },
        is_flat_object(value_view(*v)) ==> r is Ok && reads_as(r->Ok_0@, value_view(*v)),
{
    serde_json::to_vec(v).map_err(|e| e.to_string())
}

/// `Value::String`: a JSON string.
#[verifier::external_body]
fn text_value(s: String) -> (v: serde_json::Value)
    ensures
        value_view(v) == JsonView::Text(s@),
{
    serde_json::Value::String(s)
}

/// The JSON numbers of bytes.
pub open spec fn byte_numbers(bytes: Seq<u8>) -> Seq<JsonView> {
    bytes.map_values(|b: u8| JsonView::Number(Some(b as u64), decimal(b as nat)))
}

/// `Value::from` for a byte vector: an array of the bytes as whole numbers.
#[verifier::external_body]
fn bytes_value(bytes: Vec<u8>) -> (v: serde_json::Value)
    ensures
        value_view(v) == JsonView::Array(byte_numbers(bytes@)),
{
    serde_json::Value::from(bytes)
}

/// The members of a list of named `serde_json` values.
pub open spec fn pair_views(members: Seq<(String, serde_json::Value)>) -> Seq<
    (Seq<char>, JsonView),
> {
    members.map_values(|m: (String, serde_json::Value)| (m.0@, value_view(m.1)))
}

/// Whether `v` is an object with exactly these members, in whatever order.
pub open spec fn is_object_of(v: JsonView, members: Seq<(Seq<char>, JsonView)>) -> bool {
    v matches JsonView::Object(held) && held.to_multiset() == members.to_multiset()
}

/// `Value::Object` over a `Map` collected from members: an object that holds the
/// members, each once where their names differ, in an order of its own.
#[verifier::external_body]
fn object_value(members: Vec<(String, serde_json::Value)>) -> (v: serde_json::Value)
    requires
        forall|i: int, j: int|
            0 <= i < j < members@.len() ==> #[trigger] members@[i].0@ != #[trigger] members@[j].0@,
    ensures
        is_object_of(value_view(v), pair_views(members@)),
{
    serde_json::Value::Object(members.into_iter().collect())
}

/// Turns a `serde_json` value into a JSON value.
fn to_json(v: &serde_json::Value) -> (j: Json)
    ensures
        j@ == value_view(*v),
    decreases value_view(*v),
{
    match open_value(v) {
        JsonNode::Null => Json::Null,
        JsonNode::Bool(b) => Json::Bool(b),
        JsonNode::Number(n, t) => Json::Number(n, t),
        JsonNode::Text(s) => Json::Text(s),
        JsonNode::Array(items) => {
            let ghost all = item_views(items@);
            let mut out: Vec<Json> = Vec::new();
            let mut i: usize = 0;
            while i < items.len()
                invariant
                    i <= items@.len(),
                    all == item_views(items@),
                    value_view(*v) == JsonView::Array(all),
                    out@.len() == i,
                    forall|k: int| 0 <= k < i ==> (#[trigger] out@[k])@ == all[k],
                decreases items.len() - i,
            {
                proof {
                    assert(decreases_to!(value_view(*v) => value_view(*v)->Array_0));
                    assert(decreases_to!(all => all[i as int]));
                }
                out.push(to_json(&items[i]));
                i += 1;
            }
            let j = Json::Array(out);
            assert(j@->Array_0 =~= all);
            j
        },
        JsonNode::Object(members) => {
            let ghost all = member_views(members@);
            let mut out: Vec<(String, Json)> = Vec::new();
            let mut i: usize = 0;
            while i < members.len()
                invariant
                    i <= members@.len(),
                    all == member_views(members@),
                    value_view(*v) == JsonView::Object(all),
                    out@.len() == i,
                    forall|k: int|
                        0 <= k < i ==> (#[trigger] out@[k]).0@ == all[k].0 && out@[k].1@
                            == all[k].1,
                decreases members.len() - i,
            {
                proof {
                    assert(decreases_to!(value_view(*v) => value_view(*v)->Object_0));
                    assert(decreases_to!(all => all[i as int]));
                    assert(decreases_to!(all[i as int] => all[i as int].1));
                }
                let value = to_json(members[i].1);
                out.push((members[i].0.clone(), value));
                i += 1;
            }
            let j = Json::Object(out);
            assert(j@->Object_0 =~= all);
            j
        },
    }
}

/// Reads JSON text; the error is `serde_json`'s message.
pub fn parse_json(bytes: &[u8]) -> (r: Result<Json, String>)
    ensures
        match r {
            Ok(j) => json_text(bytes@) == Ok::<JsonView, Seq<char>>(j@),
            Err(m) => json_text(bytes@) == Err::<JsonView, Seq<char>>(m@),
        },
{
    match read_value(bytes) {
        Ok(v) => Ok(to_json(&v)),
        Err(m) => Err(m),
    }
}

// ── Requests ────────────────────────────────────────────────────────────────

/// The value of a request's field.
#[derive(Debug)]
pub enum FieldValue {
    /// A string.
    Text(String),
    /// An array of byte numbers.
    Bytes(Vec<u8>),
}

/// A request field's value as JSON.
pub open spec fn field_json(f: FieldValue) -> JsonView {
    match f {
        FieldValue::Text(s) => JsonView::Text(s@),
        FieldValue::Bytes(b) => JsonView::Array(byte_numbers(b@)),
    }
}

/// The members that a request's fields make.
pub open spec fn request_members(fields: Seq<(String, FieldValue)>) -> Seq<(Seq<char>, JsonView)> {
    fields.map_values(|f: (String, FieldValue)| (f.0@, field_json(f.1)))
}

/// Whether no two fields have the same name.
pub open spec fn distinct_names(fields: Seq<(String, FieldValue)>) -> bool {
    forall|i: int, j: int|
        0 <= i < j < fields.len() ==> #[trigger] fields[i].0@ != #[trigger] fields[j].0@
}

/// Whether bytes are what the writer gives for an object with these members, and
/// read back as such an object.
pub open spec fn writes_object(bytes: Seq<u8>, members: Seq<(Seq<char>, JsonView)>) -> bool {
    exists|v: JsonView|
        #![trigger json_bytes(v)]
        {
            &&& is_object_of(v, members)
            &&& json_bytes(v) == Ok::<Seq<u8>, Seq<char>>(bytes)
            &&& reads_as(bytes, v)
        }
}

proof fn lemma_same_multiset_contains<T>(a: Seq<T>, b: Seq<T>, i: int)
    requires
        a.to_multiset() == b.to_multiset(),
        0 <= i < a.len(),
    ensures
        b.contains(a[i]),
{
    broadcast use vstd::seq_lib::group_to_multiset_ensures;

    assert(a.contains(a[i]));
    assert(a.to_multiset().count(a[i]) > 0);
    assert(b.to_multiset().count(a[i]) > 0);
}

/// Writes an object with these fields.
pub fn write_object(fields: Vec<(String, FieldValue)>) -> (r: Result<Vec<u8>, String>)
    requires
        distinct_names(fields@),
    ensures
        r is Ok,
        writes_object(r->Ok_0@, request_members(fields@)),
{
    let ghost want = request_members(fields@);
    let mut members: Vec<(String, serde_json::Value)> = Vec::new();
    let mut i: usize = 0;
    while i < fields.len()
        invariant
            i <= fields@.len(),
            want == request_members(fields@),
            members@.len() == i,
            forall|j: int|
                0 <= j < i ==> (#[trigger] members@[j]).0@ == fields@[j].0@ && value_view(
                    members@[j].1,
                ) == field_json(fields@[j].1),
        decreases fields.len() - i,
    {
        let value = match &fields[i].1 {
            FieldValue::Text(s) => text_value(s.clone()),
            FieldValue::Bytes(b) => bytes_value(copy_bytes(b.as_slice())),
        };
        members.push((fields[i].0.clone(), value));
        i += 1;
    }
    proof {
        assert forall|i: int, j: int| 0 <= i < j < members@.len() implies #[trigger] members@[i].0@
            != #[trigger] members@[j].0@ by {
            assert(fields@[i].0@ != fields@[j].0@);
        }
        assert(pair_views(members@) =~= want);
    }
    let object = object_value(members);
    let ghost v = value_view(object);
    let r = write_value(&object);
    proof {
        assert(is_object_of(v, want));
        let held = v->Object_0;
        assert forall|i: int| 0 <= i < held.len() implies is_flat((#[trigger] held[i]).1) by {
            lemma_same_multiset_contains(held, want, i);
            let k = choose|k: int| 0 <= k < want.len() && want[k] == held[i];
            assert(want[k].1 == field_json(fields@[k].1));
        }
        assert(is_flat_object(v));
        assert(json_bytes(v) == Ok::<Seq<u8>, Seq<char>>(r->Ok_0@));
    }
    r
}

/// Whether no two members have the same name.
pub open spec fn distinct_members(members: Seq<(Seq<char>, JsonView)>) -> bool {
    forall|i: int, j: int|
        0 <= i < j < members.len() ==> #[trigger] members[i].0 != #[trigger] members[j].0
}

proof fn lemma_member_found(
    held: Seq<(Seq<char>, JsonView)>,
    key: Seq<char>,
    value: JsonView,
)
    requires
        exists|i: int| 0 <= i < held.len() && #[trigger] held[i] == (key, value),
        forall|i: int|
            0 <= i < held.len() && (#[trigger] held[i]).0 == key ==> held[i].1 == value,
    ensures
        member_of(held, key) == Some(value),
    decreases held.len(),
{
    if held[0].0 != key {
        let rest = held.drop_first();
        let i = choose|i: int| 0 <= i < held.len() && #[trigger] held[i] == (key, value);
        assert(rest[i - 1] == (key, value));
        assert forall|j: int| 0 <= j < rest.len() && (#[trigger] rest[j]).0 == key implies rest[j].1
            == value by {
            assert(rest[j] == held[j + 1]);
        }
        lemma_member_found(rest, key, value);
    }
}

/// An object of members with different names gives each of them back under its
/// name, whatever the order in which it holds them.
pub proof fn law_object_gives_members_back(
    v: JsonView,
    members: Seq<(Seq<char>, JsonView)>,
    i: int,
)
    requires
        is_object_of(v, members),
        distinct_members(members),
        0 <= i < members.len(),
    ensures
        member(v, members[i].0) == Some(members[i].1),
{
    let held = v->Object_0;
    let (key, value) = members[i];
    lemma_same_multiset_contains(members, held, i);
    let k = choose|k: int| 0 <= k < held.len() && held[k] == members[i];
    assert(held[k] == (key, value));
    assert forall|j: int| 0 <= j < held.len() && (#[trigger] held[j]).0 == key implies held[j].1
        == value by {
        lemma_same_multiset_contains(held, members, j);
        let m = choose|m: int| 0 <= m < members.len() && members[m] == held[j];
        if m < i {
            assert(members[m].0 != members[i].0);
        }
        if i < m {
            assert(members[i].0 != members[m].0);
        }
    }
    lemma_member_found(held, key, value);
}

/// The first member of a name is the one that is found; an object without the name,
/// and a value that is no object, has none.
pub proof fn law_first_member_is_found(
    members: Seq<(Seq<char>, JsonView)>,
    key: Seq<char>,
    i: int,
    v: JsonView,
)
    requires
        0 <= i <= members.len(),
        forall|j: int| 0 <= j < i ==> (#[trigger] members[j]).0 != key,
        i < members.len() ==> members[i].0 == key,
    ensures
        i < members.len() ==> member(JsonView::Object(members), key) == Some(members[i].1),
        i == members.len() ==> member(JsonView::Object(members), key) is None,
        !(v is Object) ==> member(v, key) is None,
    decreases members.len(),
{
    if members.len() > 0 && i > 0 {
        let rest = members.drop_first();
        assert(members[0].0 != key);
        assert forall|j: int| 0 <= j < i - 1 implies (#[trigger] rest[j]).0 != key by {
            assert(rest[j] == members[j + 1]);
        }
        law_first_member_is_found(rest, key, i - 1, v);
    }
}

/// Bytes are written as an array of their numbers, in order.
pub proof fn law_bytes_are_written_as_numbers(bytes: Seq<u8>, i: int)
    requires
        0 <= i < bytes.len(),
    ensures
        byte_numbers(bytes).len() == bytes.len(),
        byte_numbers(bytes)[i] matches JsonView::Number(n, t) && n == Some(bytes[i] as u64) && t
            == decimal(bytes[i] as nat),
{
}

} // verus!
