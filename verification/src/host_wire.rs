//! The JSON host-call wire between the typed capability hosts and the caller.
//!
//! A call goes out as `{"method":…}` with its arguments as further members. The
//! reply is `{"ok":true,"data":…}` or `{"ok":false,"error":…}`.
use crate::api::{
    api_err, name_views, ApiError, ApiErrorView, PortfolioName, PortfolioNameView,
};
use crate::json::{
    byte_numbers, distinct_members, distinct_names, field_json, is_object_of, items_of, json_bytes,
    json_text, law_object_gives_members_back, member, parse_json, reads_as, request_members,
    string_of, unsigned_of, write_object, writes_object, FieldValue, Json, JsonView,
};
use vstd::prelude::*;

verus! {

/// A capability error's view.
pub open spec fn error_view(code: Seq<char>, message: Seq<char>) -> ApiErrorView {
    ApiErrorView { code, message }
}

/// The view of a result with JSON data.
pub open spec fn data_view(r: Result<Json, ApiError>) -> Result<JsonView, ApiErrorView> {
    match r {
        Ok(j) => Ok(j@),
        Err(e) => Err(e@),
    }
}

/// The view of a result without data.
pub open spec fn unit_view(r: Result<(), ApiError>) -> Result<(), ApiErrorView> {
    match r {
        Ok(_) => Ok(()),
        Err(e) => Err(e@),
    }
}

/// The view of a list of names.
pub open spec fn names_view(r: Result<Vec<PortfolioName>, ApiError>) -> Result<
    Seq<PortfolioNameView>,
    ApiErrorView,
> {
    match r {
        Ok(names) => Ok(name_views(names@)),
        Err(e) => Err(e@),
    }
}

/// What a reply says: its data where it is `ok`, null where it has none; else a
/// denial with the reply's error text.
pub open spec fn reply_outcome(v: JsonView) -> Result<JsonView, ApiErrorView> {
    if member(v, "ok"@) == Some(JsonView::Bool(true)) {
        Ok(
            match member(v, "data"@) {
                Some(data) => data,
                None => JsonView::Null,
            },
        )
    } else {
        Err(
            error_view(
                "permission-denied"@,
                match string_of(member(v, "error"@)) {
                    Some(text) => text,
                    None => "denied"@,
                },
            ),
        )
    }
}

/// What the bytes of a reply say. No reply means that the transport is closed.
pub open spec fn wire_outcome(reply: Option<Seq<u8>>, closed: Seq<char>) -> Result<
    JsonView,
    ApiErrorView,
> {
    match reply {
        None => Err(error_view("not-found"@, closed)),
        Some(bytes) => match json_text(bytes) {
            Ok(v) => reply_outcome(v),
            Err(m) => Err(error_view("bad-response"@, m)),
        },
    }
}

/// A text member, empty where there is none.
pub open spec fn text_member(v: JsonView, key: Seq<char>) -> Seq<char> {
    match string_of(member(v, key)) {
        Some(text) => text,
        None => seq![],
    }
}

/// The portfolio names that data holds; none where it is no array.
pub open spec fn names_in(data: JsonView) -> Seq<PortfolioNameView> {
    match items_of(data) {
        Some(items) => items.map_values(
            |i: JsonView|
                PortfolioNameView { id: text_member(i, "id"@), name: text_member(i, "name"@) },
        ),
        None => seq![],
    }
}

/// The byte that a JSON item stands for: the low eight bits of a whole number.
pub open spec fn byte_in(item: JsonView) -> Option<u8> {
    match unsigned_of(item) {
        Some(n) => Some((n % 256) as u8),
        None => None,
    }
}

/// The bytes that data holds as an array of numbers; items that are no whole
/// number are left out, and other data holds none.
pub open spec fn bytes_in(data: JsonView) -> Seq<u8> {
    match items_of(data) {
        Some(items) => items.filter_map(|i: JsonView| byte_in(i)),
        None => seq![],
    }
}

/// The texts that data holds as an array of strings; other items are left out.
pub open spec fn texts_in(data: JsonView) -> Seq<Seq<char>> {
    match items_of(data) {
        Some(items) => items.filter_map(|i: JsonView| string_of(Some(i))),
        None => seq![],
    }
}

/// Decides what a reply says.
pub fn decode_reply(v: &Json) -> (r: Result<Json, ApiError>)
    ensures
        data_view(r) == reply_outcome(v@),
{
    let ok = match v.get("ok") {
        Some(j) => j.is_true(),
        None => false,
    };
    if ok {
        match v.get("data") {
            Some(data) => Ok(data.clone()),
            None => Ok(Json::Null),
        }
    } else {
        let message = match v.get("error") {
            Some(e) => match e.as_str() {
                Some(text) => text,
                None => "denied",
            },
            None => "denied",
        };
        Err(api_err("permission-denied", message))
    }
}

/// Reads the bytes of a reply. `closed` is the message for a transport that
/// closed before it replied.
pub fn read_reply(reply: Option<Vec<u8>>, closed: &str) -> (r: Result<Json, ApiError>)
    ensures
        data_view(r) == wire_outcome(
            crate::http_exchange::bytes_view(reply),
            closed@,
        ),
{
    match reply {
        None => Err(api_err("not-found", closed)),
        Some(bytes) => match parse_json(bytes.as_slice()) {
            Ok(v) => decode_reply(&v),
            Err(m) => Err(api_err("bad-response", m.as_str())),
        },
    }
}

/// A text member, empty where there is none.
fn text_of_member(v: &Json, key: &str) -> (s: String)
    ensures
        s@ == text_member(v@, key@),
{
    match v.get(key) {
        Some(j) => match j.as_str() {
            Some(text) => text.to_owned(),
            None => String::new(),
        },
        None => String::new(),
    }
}

/// The portfolio names that data holds.
pub fn decode_names(data: &Json) -> (names: Vec<PortfolioName>)
    ensures
        name_views(names@) == names_in(data@),
{
    let mut names: Vec<PortfolioName> = Vec::new();
    if let Json::Array(items) = data {
        let ghost all = data@->Array_0;
        let mut i: usize = 0;
        while i < items.len()
            invariant
                i <= items@.len(),
                all.len() == items@.len(),
                data@ == JsonView::Array(all),
                forall|j: int| 0 <= j < all.len() ==> #[trigger] all[j] == items@[j]@,
                names@.len() == i,
                forall|j: int| 0 <= j < i ==> (#[trigger] names@[j])@ == names_in(data@)[j],
            decreases items.len() - i,
        {
            let item = &items[i];
            assert(all[i as int] == item@);
            names.push(
                PortfolioName {
                    id: text_of_member(item, "id"),
                    name: text_of_member(item, "name"),
                },
            );
            i += 1;
        }
    }
    assert(name_views(names@) =~= names_in(data@));
    names
}

/// The bytes that data holds as an array of numbers.
pub fn decode_bytes(data: &Json) -> (bytes: Vec<u8>)
    ensures
        bytes@ == bytes_in(data@),
{
    let mut bytes: Vec<u8> = Vec::new();
    if let Json::Array(items) = data {
        let ghost all = data@->Array_0;
        let ghost read = |i: JsonView| byte_in(i);
        let mut i: usize = 0;
        assert(all.take(0).filter_map(read) =~= Seq::<u8>::empty());
        while i < items.len()
            invariant
                i <= items@.len(),
                all.len() == items@.len(),
                data@ == JsonView::Array(all),
                read == (|i: JsonView| byte_in(i)),
                forall|j: int| 0 <= j < all.len() ==> #[trigger] all[j] == items@[j]@,
                bytes@ == all.take(i as int).filter_map(read),
            decreases items.len() - i,
        {
            proof {
                all.lemma_filter_map_take_succ(read, i as int);
                assert(all[i as int] == items@[i as int]@);
            }
            if let Some(n) = items[i].as_u64() {
                bytes.push((n % 256) as u8);
            }
            i += 1;
        }
        assert(all.take(all.len() as int) =~= all);
    }
    assert(bytes@ =~= bytes_in(data@));
    bytes
}

/// The texts that data holds as an array of strings.
pub fn decode_texts(data: &Json) -> (texts: Vec<String>)
    ensures
        texts@.map_values(|s: String| s@) == texts_in(data@),
{
    let mut texts: Vec<String> = Vec::new();
    let ghost view = |s: String| s@;
    if let Json::Array(items) = data {
        let ghost all = data@->Array_0;
        let ghost read = |i: JsonView| string_of(Some(i));
        let mut i: usize = 0;
        assert(texts@.map_values(view) =~= all.take(0).filter_map(read));
        while i < items.len()
            invariant
                i <= items@.len(),
                all.len() == items@.len(),
                data@ == JsonView::Array(all),
                read == (|i: JsonView| string_of(Some(i))),
                view == (|s: String| s@),
                forall|j: int| 0 <= j < all.len() ==> #[trigger] all[j] == items@[j]@,
                texts@.map_values(view) == all.take(i as int).filter_map(read),
            decreases items.len() - i,
        {
            let ghost before = texts@;
            proof {
                all.lemma_filter_map_take_succ(read, i as int);
                assert(all[i as int] == items@[i as int]@);
            }
            if let Some(text) = items[i].as_str() {
                texts.push(text.to_owned());
                assert(texts@.map_values(view) =~= before.map_values(view).push(text@));
            }
            i += 1;
        }
        assert(all.take(all.len() as int) =~= all);
    }
    assert(texts@.map_values(|s: String| s@) =~= texts_in(data@));
    texts
}

// ── Calls ───────────────────────────────────────────────────────────────────

/// A text member of a call.
pub open spec fn text_field(key: Seq<char>, text: Seq<char>) -> (Seq<char>, JsonView) {
    (key, JsonView::Text(text))
}

/// The view of a written call.
pub open spec fn call_view(r: Result<Vec<u8>, ApiError>) -> Result<Seq<u8>, ApiErrorView> {
    match r {
        Ok(bytes) => Ok(bytes@),
        Err(e) => Err(e@),
    }
}

/// Whether a result is the bytes of a call with these members.
pub open spec fn is_call(
    r: Result<Seq<u8>, ApiErrorView>,
    members: Seq<(Seq<char>, JsonView)>,
) -> bool {
    r matches Ok(bytes) && writes_object(bytes, members)
}

/// Writes a call. A writer's error would be a bad request.
pub fn write_call(fields: Vec<(String, FieldValue)>) -> (r: Result<Vec<u8>, ApiError>)
    requires
        distinct_names(fields@),
    ensures
        is_call(call_view(r), request_members(fields@)),
{
    match write_object(fields) {
        Ok(bytes) => Ok(bytes),
        Err(m) => Err(api_err("bad-request", m.as_str())),
    }
}

/// A call with a method and nothing else.
pub fn method_call(method: &str) -> (r: Result<Vec<u8>, ApiError>)
    ensures
        is_call(call_view(r), seq![text_field("method"@, method@)]),
{
    let mut fields: Vec<(String, FieldValue)> = Vec::new();
    fields.push(("method".to_owned(), FieldValue::Text(method.to_owned())));
    assert(request_members(fields@) =~= seq![text_field("method"@, method@)]);
    write_call(fields)
}

/// A call with a method and one more text member.
pub fn keyed_call(method: &str, key: &str, text: &str) -> (r: Result<Vec<u8>, ApiError>)
    requires
        key@ != "method"@,
    ensures
        is_call(call_view(r), seq![text_field("method"@, method@), text_field(key@, text@)]),
{
    let mut fields: Vec<(String, FieldValue)> = Vec::new();
    fields.push(("method".to_owned(), FieldValue::Text(method.to_owned())));
    fields.push((key.to_owned(), FieldValue::Text(text.to_owned())));
    assert(request_members(fields@) =~= seq![
        text_field("method"@, method@),
        text_field(key@, text@),
    ]);
    write_call(fields)
}

/// A call with a method, one more text member and a value.
pub fn valued_call(method: &str, key: &str, text: &str, value_key: &str, value: FieldValue) -> (r:
    Result<Vec<u8>, ApiError>)
    requires
        key@ != "method"@,
        value_key@ != "method"@,
        key@ != value_key@,
    ensures
        is_call(
            call_view(r),
            seq![
                text_field("method"@, method@),
                text_field(key@, text@),
                (value_key@, field_json(value)),
            ],
        ),
{
    let mut fields: Vec<(String, FieldValue)> = Vec::new();
    let ghost v = field_json(value);
    fields.push(("method".to_owned(), FieldValue::Text(method.to_owned())));
    fields.push((key.to_owned(), FieldValue::Text(text.to_owned())));
    fields.push((value_key.to_owned(), value));
    assert(request_members(fields@) =~= seq![
        text_field("method"@, method@),
        text_field(key@, text@),
        (value_key@, v),
    ]);
    write_call(fields)
}

// ── Laws ────────────────────────────────────────────────────────────────────

proof fn lemma_bytes_of_numbers(items: Seq<JsonView>, bytes: Seq<u8>)
    requires
        items == byte_numbers(bytes),
    ensures
        items.filter_map(|i: JsonView| byte_in(i)) == bytes,
    decreases bytes.len(),
{
    let read = |i: JsonView| byte_in(i);
    if bytes.len() > 0 {
        let front = bytes.drop_last();
        assert(items.drop_last() =~= byte_numbers(front));
        lemma_bytes_of_numbers(items.drop_last(), front);
        assert(read(items.last()) == Some(bytes.last()));
        assert(front + seq![bytes.last()] =~= bytes);
    } else {
        assert(items.filter_map(read) =~= bytes);
    }
}

/// Bytes that ride the wire as an array of numbers come back as they were.
pub proof fn law_numbers_round_trip(bytes: Seq<u8>)
    ensures
        bytes_in(JsonView::Array(byte_numbers(bytes))) == bytes,
{
    lemma_bytes_of_numbers(byte_numbers(bytes), bytes);
}

/// Only a reply that says `ok` yields data: any other reply is a denial, and no
/// data crosses.
pub proof fn law_only_ok_yields_data(v: JsonView)
    ensures
        reply_outcome(v) is Ok <==> member(v, "ok"@) == Some(JsonView::Bool(true)),
        reply_outcome(v) matches Err(e) ==> e.code == "permission-denied"@,
{
}

/// The caller reads from a call the members that were put in, each under its
/// name.
pub proof fn law_call_members_are_read_back(
    bytes: Seq<u8>,
    members: Seq<(Seq<char>, JsonView)>,
    i: int,
)
    requires
        is_call(Ok(bytes), members),
        distinct_members(members),
        0 <= i < members.len(),
    ensures
        json_text(bytes) is Ok,
        member(json_text(bytes)->Ok_0, members[i].0) == Some(members[i].1),
{
    let v = choose|v: JsonView|
        #![trigger json_bytes(v)]
        {
            &&& is_object_of(v, members)
            &&& json_bytes(v) == Ok::<Seq<u8>, Seq<char>>(bytes)
            &&& reads_as(bytes, v)
        };
    law_object_gives_members_back(v, members, i);
}

/// What a reply means: its data with `"ok":true`, null where it has none; else the
/// text under `error`, or `denied`, as a denial. A closed transport is not found,
/// and bytes that are no JSON are a bad response.
pub proof fn law_reply_means_what_it_says(v: JsonView, bytes: Seq<u8>, closed: Seq<char>)
    ensures
        ({
            let ok = member(v, "ok"@) == Some(JsonView::Bool(true));
            &&& ok && member(v, "data"@) is Some ==> reply_outcome(v) == Ok::<
                JsonView,
                ApiErrorView,
            >(member(v, "data"@)->0)
            &&& ok && member(v, "data"@) is None ==> reply_outcome(v) == Ok::<
                JsonView,
                ApiErrorView,
            >(JsonView::Null)
            &&& !ok ==> (member(v, "error"@) matches Some(JsonView::Text(t)) ==> reply_outcome(v)
                == Err::<JsonView, ApiErrorView>(
                ApiErrorView { code: "permission-denied"@, message: t },
            ))
            &&& !ok && !(member(v, "error"@) matches Some(JsonView::Text(_))) ==> reply_outcome(v)
                == Err::<JsonView, ApiErrorView>(
                ApiErrorView { code: "permission-denied"@, message: "denied"@ },
            )
        }),
        wire_outcome(None, closed) == Err::<JsonView, ApiErrorView>(
            ApiErrorView { code: "not-found"@, message: closed },
        ),
        json_text(bytes) matches Ok(w) ==> wire_outcome(Some(bytes), closed) == reply_outcome(w),
        json_text(bytes) matches Err(m) ==> wire_outcome(Some(bytes), closed) == Err::<
            JsonView,
            ApiErrorView,
        >(ApiErrorView { code: "bad-response"@, message: m }),
{
}

/// Names come out in the order of the array, each with the text under `id` and the
/// text under `name`, empty where it has none; other data holds no names.
pub proof fn law_names_keep_their_order(data: JsonView, items: Seq<JsonView>, i: int)
    requires
        0 <= i < items.len(),
    ensures
        names_in(JsonView::Array(items)).len() == items.len(),
        member(items[i], "id"@) matches Some(JsonView::Text(t)) ==> names_in(
            JsonView::Array(items),
        )[i].id == t,
        !(member(items[i], "id"@) matches Some(JsonView::Text(_))) ==> names_in(
            JsonView::Array(items),
        )[i].id == Seq::<char>::empty(),
        member(items[i], "name"@) matches Some(JsonView::Text(t)) ==> names_in(
            JsonView::Array(items),
        )[i].name == t,
        !(member(items[i], "name"@) matches Some(JsonView::Text(_))) ==> names_in(
            JsonView::Array(items),
        )[i].name == Seq::<char>::empty(),
        !(data is Array) ==> names_in(data).len() == 0,
{
}

/// Bytes and texts come out in the order of the array: a whole number adds its low
/// eight bits to the bytes, a string adds its text to the texts, and an item of
/// another kind adds nothing. Other data holds none.
pub proof fn law_items_keep_their_order(data: JsonView, items: Seq<JsonView>, item: JsonView)
    ensures
        bytes_in(JsonView::Array(seq![])) == Seq::<u8>::empty(),
        texts_in(JsonView::Array(seq![])) == Seq::<Seq<char>>::empty(),
        item matches JsonView::Number(Some(n), _) ==> bytes_in(JsonView::Array(items.push(item)))
            == bytes_in(JsonView::Array(items)).push((n % 256) as u8),
        !(item matches JsonView::Number(Some(_), _)) ==> bytes_in(
            JsonView::Array(items.push(item)),
        ) == bytes_in(JsonView::Array(items)),
        item matches JsonView::Text(t) ==> texts_in(JsonView::Array(items.push(item))) == texts_in(
            JsonView::Array(items),
        ).push(t),
        !(item is Text) ==> texts_in(JsonView::Array(items.push(item))) == texts_in(
            JsonView::Array(items),
        ),
        !(data is Array) ==> bytes_in(data).len() == 0 && texts_in(data).len() == 0,
{
    let all = items.push(item);
    assert(all.drop_last() =~= items);
    assert(all.last() == item);
    let read = |i: JsonView| byte_in(i);
    let text = |i: JsonView| string_of(Some(i));
    assert(Seq::<JsonView>::empty().filter_map(read) =~= Seq::<u8>::empty());
    assert(Seq::<JsonView>::empty().filter_map(text) =~= Seq::<Seq<char>>::empty());
    if let JsonView::Number(Some(n), _) = item {
        assert(read(item) == Some((n % 256) as u8));
        assert(all.filter_map(read) =~= items.filter_map(read).push((n % 256) as u8));
    } else {
        assert(read(item) is None);
        assert(all.filter_map(read) =~= items.filter_map(read));
    }
    if let JsonView::Text(t) = item {
        assert(text(item) == Some(t));
        assert(all.filter_map(text) =~= items.filter_map(text).push(t));
    } else {
        assert(text(item) is None);
        assert(all.filter_map(text) =~= items.filter_map(text));
    }
}

/// What is read of a call: each of up to three members under its name.
pub proof fn lemma_call_of_members(
    bytes: Seq<u8>,
    members: Seq<(Seq<char>, JsonView)>,
)
    requires
        is_call(Ok(bytes), members),
        distinct_members(members),
    ensures
        json_text(bytes) is Ok,
        forall|i: int|
            0 <= i < members.len() ==> member(
                json_text(bytes)->Ok_0,
                (#[trigger] members[i]).0,
            ) == Some(members[i].1),
{
    let v = choose|v: JsonView|
        #![trigger json_bytes(v)]
        {
            &&& is_object_of(v, members)
            &&& json_bytes(v) == Ok::<Seq<u8>, Seq<char>>(bytes)
            &&& reads_as(bytes, v)
        };
    assert forall|i: int| 0 <= i < members.len() implies member(
        json_text(bytes)->Ok_0,
        (#[trigger] members[i]).0,
    ) == Some(members[i].1) by {
        law_call_members_are_read_back(bytes, members, i);
    }
    assert(reads_as(bytes, v));
}

} // verus!
