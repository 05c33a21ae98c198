//! The typed `storage` and `events` host over the host-call wire.
//!
//! Bytes go out as base64 strings, which the caller's string-based storage keeps
//! unchanged. A stored value comes back as such a string or as an array of
//! numbers.
use crate::api::{api_err, ApiError, ApiErrorView, PluginEvent};
use crate::host_wire::{
    bytes_in, call_view, data_view, decode_bytes, decode_texts, error_view, is_call, keyed_call,
    law_numbers_round_trip, lemma_call_of_members, method_call, read_reply, text_field, texts_in, unit_view, valued_call,
    wire_outcome,
};
use crate::http_exchange::bytes_view;
use crate::json::{byte_numbers, json_text, member, FieldValue, Json, JsonView};
use crate::plugin_host_bytes::{
    b64_bytes, b64_decode, b64_encode, b64_text, law_b64_round_trip,
};
use crate::plugin_host_full::{ack_outcome, closed_message, value_view};
use vstd::prelude::*;

verus! {

/// The value that data says: the bytes of a base64 string or of an array of
/// numbers, none for other data.
pub open spec fn stored_value(data: JsonView) -> Result<Option<Seq<u8>>, ApiErrorView> {
    match data {
        JsonView::Text(s) => match b64_bytes(s) {
            Some(bytes) => Ok(Some(bytes)),
            None => Err(
                error_view("bad-response"@, "storage value was not valid base64"@),
            ),
        },
        JsonView::Array(_) => Ok(Some(bytes_in(data))),
        _ => Ok(None),
    }
}

/// The value that a reply to a storage read says.
pub open spec fn stored_outcome(reply: Option<Seq<u8>>) -> Result<Option<Seq<u8>>, ApiErrorView> {
    match wire_outcome(reply, closed_message()) {
        Ok(data) => stored_value(data),
        Err(e) => Err(e),
    }
}

/// The keys that a reply says.
pub open spec fn keys_outcome(reply: Option<Seq<u8>>) -> Result<Seq<Seq<char>>, ApiErrorView> {
    match wire_outcome(reply, closed_message()) {
        Ok(data) => Ok(texts_in(data)),
        Err(e) => Err(e),
    }
}

/// The view of a list of keys.
pub open spec fn keys_view(r: Result<Vec<String>, ApiError>) -> Result<
    Seq<Seq<char>>,
    ApiErrorView,
> {
    match r {
        Ok(keys) => Ok(keys@.map_values(|s: String| s@)),
        Err(e) => Err(e@),
    }
}

/// The value that data says.
pub fn decode_stored(data: &Json) -> (r: Result<Option<Vec<u8>>, ApiError>)
    ensures
        value_view(r) == stored_value(data@),
{
    match data {
        Json::Text(s) => match b64_decode(s.as_str()) {
            Some(bytes) => Ok(Some(bytes)),
            None => Err(api_err("bad-response", "storage value was not valid base64")),
        },
        Json::Array(_) => Ok(Some(decode_bytes(data))),
        _ => Ok(None),
    }
}

/// The typed `storage` and `events` host.
pub struct TransportStorageEventsHost;

impl TransportStorageEventsHost {
    /// The data that a reply says, or the typed error.
    pub fn call_reply(reply: Option<Vec<u8>>) -> (r: Result<Json, ApiError>)
        ensures
            data_view(r) == wire_outcome(bytes_view(reply), closed_message()),
    {
        read_reply(reply, "host transport closed")
    }

    /// What a reply to a call without a result says.
    pub fn ack_reply(reply: Option<Vec<u8>>) -> (r: Result<(), ApiError>)
        ensures
            unit_view(r) == ack_outcome(bytes_view(reply)),
    {
        match TransportStorageEventsHost::call_reply(reply) {
            Ok(_) => Ok(()),
            Err(e) => Err(e),
        }
    }

    /// The request of a storage read.
    pub fn get_request(key: String) -> (r: Result<Vec<u8>, ApiError>)
        ensures
            is_call(
                call_view(r),
                seq![text_field("method"@, "storage_get"@), text_field("key"@, key@)],
            ),
    {
        proof {
            reveal_strlit("method");
            reveal_strlit("key");
            assert("key"@[0] != "method"@[0]);
        }
        keyed_call("storage_get", "key", key.as_str())
    }

    /// The value that a reply to a storage read says.
    pub fn get_reply(reply: Option<Vec<u8>>) -> (r: Result<Option<Vec<u8>>, ApiError>)
        ensures
            value_view(r) == stored_outcome(bytes_view(reply)),
    {
        match TransportStorageEventsHost::call_reply(reply) {
            Ok(data) => decode_stored(&data),
            Err(e) => Err(e),
        }
    }

    /// The request of a storage write.
    pub fn set_request(key: String, value: Vec<u8>) -> (r: Result<Vec<u8>, ApiError>)
        ensures
            is_call(
                call_view(r),
                seq![
                    text_field("method"@, "storage_set"@),
                    text_field("key"@, key@),
                    text_field("value"@, b64_text(value@)),
                ],
            ),
    {
        proof {
            reveal_strlit("method");
            reveal_strlit("key");
            reveal_strlit("value");
            assert("key"@[0] != "value"@[0]);
        }
        valued_call(
            "storage_set",
            "key",
            key.as_str(),
            "value",
            FieldValue::Text(b64_encode(value.as_slice())),
        )
    }

    /// The request of a storage deletion.
    pub fn delete_request(key: String) -> (r: Result<Vec<u8>, ApiError>)
        ensures
            is_call(
                call_view(r),
                seq![text_field("method"@, "storage_delete"@), text_field("key"@, key@)],
            ),
    {
        proof {
            reveal_strlit("method");
            reveal_strlit("key");
            assert("key"@[0] != "method"@[0]);
        }
        keyed_call("storage_delete", "key", key.as_str())
    }

    /// The request to clear the storage.
    pub fn clear_request() -> (r: Result<Vec<u8>, ApiError>)
        ensures
            is_call(call_view(r), seq![text_field("method"@, "storage_clear"@)]),
    {
        method_call("storage_clear")
    }

    /// The request for the keys.
    pub fn list_keys_request() -> (r: Result<Vec<u8>, ApiError>)
        ensures
            is_call(call_view(r), seq![text_field("method"@, "storage_list_keys"@)]),
    {
        method_call("storage_list_keys")
    }

    /// The keys that a reply says.
    pub fn list_keys_reply(reply: Option<Vec<u8>>) -> (r: Result<Vec<String>, ApiError>)
        ensures
            keys_view(r) == keys_outcome(bytes_view(reply)),
    {
        match TransportStorageEventsHost::call_reply(reply) {
            Ok(data) => Ok(decode_texts(&data)),
            Err(e) => Err(e),
        }
    }

    /// The request of an event.
    pub fn emit_request(event: PluginEvent) -> (r: Result<Vec<u8>, ApiError>)
        ensures
            is_call(
                call_view(r),
                seq![
                    text_field("method"@, "emit_event"@),
                    text_field("name"@, event.kind@),
                    text_field("payload"@, b64_text(event.payload@)),
                ],
            ),
    {
        proof {
            reveal_strlit("method");
            reveal_strlit("name");
            reveal_strlit("payload");
            assert("name"@[0] != "payload"@[0]);
        }
        valued_call(
            "emit_event",
            "name",
            event.kind.as_str(),
            "payload",
            FieldValue::Text(b64_encode(event.payload.as_slice())),
        )
    }
}

/// A value that the caller keeps as it was sent reads back as the bytes that were
/// written, whatever they hold.
pub proof fn law_stored_value_round_trip(value: Seq<u8>)
    ensures
        stored_value(JsonView::Text(b64_text(value))) == Ok::<Option<Seq<u8>>, ApiErrorView>(
            Some(value),
        ),
        stored_value(JsonView::Array(byte_numbers(value))) == Ok::<Option<Seq<u8>>, ApiErrorView>(
            Some(value),
        ),
{
    law_b64_round_trip(value);
    law_numbers_round_trip(value);
}

/// The caller reads from a storage read its method and the key.
pub proof fn law_get_request_names_the_key(
    key: String,
    r: Result<Vec<u8>, ApiError>,
)
    requires
        call_ensures(TransportStorageEventsHost::get_request, (key,), r),
    ensures
        r matches Ok(bytes) && json_text(bytes@) is Ok && member(json_text(bytes@)->Ok_0, "method"@) == Some(
                JsonView::Text("storage_get"@),
            ) && member(json_text(bytes@)->Ok_0, "key"@) == Some(
                JsonView::Text(key@),
            ),
{
    reveal_strlit("method");
    reveal_strlit("key");
    assert("method"@[0] != "key"@[0]);
    let members = seq![
        ("method"@, JsonView::Text("storage_get"@)),
        ("key"@, JsonView::Text(key@)),
    ];
    let bytes = r->Ok_0@;
    lemma_call_of_members(bytes, members);
    assert(members[0].0 == "method"@);
    assert(members[1].0 == "key"@);
}

/// The caller reads from a storage write its method, the key, and the value in base64.
pub proof fn law_set_request_carries_the_value(
    key: String,
    value: Vec<u8>,
    r: Result<Vec<u8>, ApiError>,
)
    requires
        call_ensures(TransportStorageEventsHost::set_request, (key, value), r),
    ensures
        r matches Ok(bytes) && json_text(bytes@) is Ok && member(json_text(bytes@)->Ok_0, "method"@) == Some(
                JsonView::Text("storage_set"@),
            ) && member(json_text(bytes@)->Ok_0, "key"@) == Some(
                JsonView::Text(key@),
            ) && member(json_text(bytes@)->Ok_0, "value"@) == Some(
                JsonView::Text(b64_text(value@)),
            ),
{
    reveal_strlit("method");
    reveal_strlit("key");
    reveal_strlit("value");
    assert("method"@[0] != "key"@[0]);
    assert("method"@[0] != "value"@[0]);
    assert("key"@[0] != "value"@[0]);
    let members = seq![
        ("method"@, JsonView::Text("storage_set"@)),
        ("key"@, JsonView::Text(key@)),
        ("value"@, JsonView::Text(b64_text(value@))),
    ];
    let bytes = r->Ok_0@;
    lemma_call_of_members(bytes, members);
    assert(members[0].0 == "method"@);
    assert(members[1].0 == "key"@);
    assert(members[2].0 == "value"@);
}

/// The caller reads from a storage deletion its method and the key.
pub proof fn law_delete_request_names_the_key(
    key: String,
    r: Result<Vec<u8>, ApiError>,
)
    requires
        call_ensures(TransportStorageEventsHost::delete_request, (key,), r),
    ensures
        r matches Ok(bytes) && json_text(bytes@) is Ok && member(json_text(bytes@)->Ok_0, "method"@) == Some(
                JsonView::Text("storage_delete"@),
            ) && member(json_text(bytes@)->Ok_0, "key"@) == Some(
                JsonView::Text(key@),
            ),
{
    reveal_strlit("method");
    reveal_strlit("key");
    assert("method"@[0] != "key"@[0]);
    let members = seq![
        ("method"@, JsonView::Text("storage_delete"@)),
        ("key"@, JsonView::Text(key@)),
    ];
    let bytes = r->Ok_0@;
    lemma_call_of_members(bytes, members);
    assert(members[0].0 == "method"@);
    assert(members[1].0 == "key"@);
}

/// The caller reads from a clear its method.
pub proof fn law_clear_request_says_so(
    r: Result<Vec<u8>, ApiError>,
)
    requires
        call_ensures(TransportStorageEventsHost::clear_request, (), r),
    ensures
        r matches Ok(bytes) && json_text(bytes@) is Ok && member(json_text(bytes@)->Ok_0, "method"@) == Some(
                JsonView::Text("storage_clear"@),
            ),
{
    reveal_strlit("method");
    let members = seq![
        ("method"@, JsonView::Text("storage_clear"@)),
    ];
    let bytes = r->Ok_0@;
    lemma_call_of_members(bytes, members);
    assert(members[0].0 == "method"@);
}

/// The caller reads from a listing its method.
pub proof fn law_list_request_says_so(
    r: Result<Vec<u8>, ApiError>,
)
    requires
        call_ensures(TransportStorageEventsHost::list_keys_request, (), r),
    ensures
        r matches Ok(bytes) && json_text(bytes@) is Ok && member(json_text(bytes@)->Ok_0, "method"@) == Some(
                JsonView::Text("storage_list_keys"@),
            ),
{
    reveal_strlit("method");
    let members = seq![
        ("method"@, JsonView::Text("storage_list_keys"@)),
    ];
    let bytes = r->Ok_0@;
    lemma_call_of_members(bytes, members);
    assert(members[0].0 == "method"@);
}

/// The caller reads from an event its method, its kind as the name, and its payload in base64.
pub proof fn law_emit_request_carries_the_event(
    event: PluginEvent,
    r: Result<Vec<u8>, ApiError>,
)
    requires
        call_ensures(TransportStorageEventsHost::emit_request, (event,), r),
    ensures
        r matches Ok(bytes) && json_text(bytes@) is Ok && member(json_text(bytes@)->Ok_0, "method"@) == Some(
                JsonView::Text("emit_event"@),
            ) && member(json_text(bytes@)->Ok_0, "name"@) == Some(
                JsonView::Text(event.kind@),
            ) && member(json_text(bytes@)->Ok_0, "payload"@) == Some(
                JsonView::Text(b64_text(event.payload@)),
            ),
{
    reveal_strlit("method");
    reveal_strlit("name");
    reveal_strlit("payload");
    assert("method"@[0] != "name"@[0]);
    assert("method"@[0] != "payload"@[0]);
    assert("name"@[0] != "payload"@[0]);
    let members = seq![
        ("method"@, JsonView::Text("emit_event"@)),
        ("name"@, JsonView::Text(event.kind@)),
        ("payload"@, JsonView::Text(b64_text(event.payload@))),
    ];
    let bytes = r->Ok_0@;
    lemma_call_of_members(bytes, members);
    assert(members[0].0 == "method"@);
    assert(members[1].0 == "name"@);
    assert(members[2].0 == "payload"@);
}

/// A stored value comes back as the bytes of its base64 text or of its array of
/// numbers; null and other data mean that there is none; a text that is no base64
/// is a bad response, and a failed call fails the read.
pub proof fn law_stored_reply_is_read(reply: Option<Seq<u8>>, text: Seq<char>, items: Seq<JsonView>)
    ensures
        b64_bytes(text) is Some ==> stored_value(JsonView::Text(text)) == Ok::<
            Option<Seq<u8>>,
            ApiErrorView,
        >(Some(b64_bytes(text)->0)),
        b64_bytes(text) is None ==> stored_value(JsonView::Text(text)) == Err::<
            Option<Seq<u8>>,
            ApiErrorView,
        >(
            ApiErrorView {
                code: "bad-response"@,
                message: "storage value was not valid base64"@,
            },
        ),
        stored_value(JsonView::Array(items)) == Ok::<Option<Seq<u8>>, ApiErrorView>(
            Some(bytes_in(JsonView::Array(items))),
        ),
        stored_value(JsonView::Null) == Ok::<Option<Seq<u8>>, ApiErrorView>(None),
        wire_outcome(reply, "host transport closed"@) matches Ok(data) ==> stored_outcome(reply)
            == stored_value(data) && keys_outcome(reply) == Ok::<Seq<Seq<char>>, ApiErrorView>(
            texts_in(data),
        ),
        wire_outcome(reply, "host transport closed"@) matches Err(e) ==> stored_outcome(reply)
            == Err::<Option<Seq<u8>>, ApiErrorView>(e) && keys_outcome(reply) == Err::<
            Seq<Seq<char>>,
            ApiErrorView,
        >(e),
{
}

/// What a storage read returns is what its reply says: a value that was written and
/// comes back unchanged, as base64 text or as numbers, is read as the same bytes.
pub proof fn law_read_returns_what_was_written(
    value: Seq<u8>,
    reply: Vec<u8>,
    r: Result<Option<Vec<u8>>, ApiError>,
)
    requires
        call_ensures(TransportStorageEventsHost::get_reply, (Some(reply),), r),
        json_text(reply@) is Ok,
        member(json_text(reply@)->Ok_0, "ok"@) == Some(JsonView::Bool(true)),
    ensures
        member(json_text(reply@)->Ok_0, "data"@) == Some(JsonView::Text(b64_text(value)))
            ==> (r matches Ok(Some(v)) && v@ == value),
        member(json_text(reply@)->Ok_0, "data"@) == Some(JsonView::Array(byte_numbers(value)))
            ==> (r matches Ok(Some(v)) && v@ == value),
        member(json_text(reply@)->Ok_0, "data"@) == Some(JsonView::Null) ==> r matches Ok(None),
        member(json_text(reply@)->Ok_0, "data"@) is None ==> r matches Ok(None),
{
    law_stored_value_round_trip(value);
}

/// A refused call fails with the caller's text as a denial, a closed transport is
/// not found.
pub proof fn law_refusals_are_handed_on(
    reply: Option<Vec<u8>>,
    r: Result<(), ApiError>,
)
    requires
        call_ensures(TransportStorageEventsHost::ack_reply, (reply,), r),
    ensures
        reply is None ==> (r matches Err(e) && e@.code == "not-found"@ && e@.message
            == "host transport closed"@),
        reply matches Some(bytes) ==> json_text(bytes@) is Ok ==> (r is Ok <==> member(
            json_text(bytes@)->Ok_0,
            "ok"@,
        ) == Some(JsonView::Bool(true))),
        reply matches Some(bytes) ==> json_text(bytes@) is Err ==> (r matches Err(e) && e@.code
            == "bad-response"@),
{
}

} // verus!
