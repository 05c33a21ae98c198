//! The unified typed host over the host-call wire: `workspace`, `storage`,
//! `events` and `log` of one plugin.
//!
//! Bytes ride this host's wire as arrays of numbers. The calls that the wire does
//! not carry fail with a not-found error.
use crate::api::{ApiError, ApiErrorView, Level, PluginEvent, PortfolioName};
use crate::host_wire::{
    bytes_in, call_view, data_view, decode_bytes, decode_names, error_view, is_call, keyed_call,
    lemma_call_of_members, method_call, names_view, read_reply, text_field, unit_view, valued_call, wire_outcome,
};
use crate::http_exchange::bytes_view;
use crate::json::{byte_numbers, json_text, member, FieldValue, Json, JsonView};
use crate::plugin_host::names_outcome;
use vstd::prelude::*;

verus! {

/// The message for a transport that closed before it replied.
pub open spec fn closed_message() -> Seq<char> {
    "host transport closed"@
}

/// The error of a call that is not wired.
pub open spec fn not_wired_error(method: Seq<char>) -> ApiErrorView {
    error_view(
        "not-found"@,
        method
            + ": not wired in the C1 keystone (follows the proven per-capability bridge)"@,
    )
}

/// The view of a stored value.
pub open spec fn value_view(r: Result<Option<Vec<u8>>, ApiError>) -> Result<
    Option<Seq<u8>>,
    ApiErrorView,
> {
    match r {
        Ok(v) => Ok(bytes_view(v)),
        Err(e) => Err(e@),
    }
}

/// What a reply to a call without a result says.
pub open spec fn ack_outcome(reply: Option<Seq<u8>>) -> Result<(), ApiErrorView> {
    match wire_outcome(reply, closed_message()) {
        Ok(_) => Ok(()),
        Err(e) => Err(e),
    }
}

/// The value that a reply to a storage read says: none where its data is null.
pub open spec fn value_outcome(reply: Option<Seq<u8>>) -> Result<Option<Seq<u8>>, ApiErrorView> {
    match wire_outcome(reply, closed_message()) {
        Ok(JsonView::Null) => Ok(None),
        Ok(data) => Ok(Some(bytes_in(data))),
        Err(e) => Err(e),
    }
}

/// The name of a log level on the wire.
pub open spec fn level_name(level: Level) -> Seq<char> {
    match level {
        Level::Trace => "trace"@,
        Level::Debug => "debug"@,
        Level::Info => "info"@,
        Level::Warn => "warn"@,
        Level::Error => "error"@,
    }
}

/// The error of a call that is not wired.
fn not_wired(method: &str) -> (e: ApiError)
    ensures
        e@ == not_wired_error(method@),
{
    ApiError {
        code: "not-found".to_owned(),
        message: String::from_str(method).concat(
            ": not wired in the C1 keystone (follows the proven per-capability bridge)",
        ),
    }
}

/// The name of a log level on the wire.
fn level_str(level: Level) -> (s: &'static str)
    ensures
        s@ == level_name(level),
{
    match level {
        Level::Trace => "trace",
        Level::Debug => "debug",
        Level::Info => "info",
        Level::Warn => "warn",
        Level::Error => "error",
    }
}

/// The unified typed host.
pub struct TransportPluginHost;

impl TransportPluginHost {
    /// The data that a reply says, or the typed error.
    pub fn forward_reply(reply: Option<Vec<u8>>) -> (r: Result<Json, ApiError>)
        ensures
            data_view(r) == wire_outcome(bytes_view(reply), closed_message()),
    {
        read_reply(reply, "host transport closed")
    }

    /// What a reply to a call without a result says.
    pub fn ack_reply(reply: Option<Vec<u8>>) -> (r: Result<(), ApiError>)
        ensures
            unit_view(r) == ack_outcome(bytes_view(reply)),
    {
        match TransportPluginHost::forward_reply(reply) {
            Ok(_) => Ok(()),
            Err(e) => Err(e),
        }
    }

    /// The request for the portfolio names.
    pub fn read_portfolio_names_request() -> (r: Result<Vec<u8>, ApiError>)
        ensures
            is_call(call_view(r), seq![text_field("method"@, "read:portfolio_names"@)]),
    {
        method_call("read:portfolio_names")
    }

    /// The portfolio names that a reply says.
    pub fn read_portfolio_names_reply(reply: Option<Vec<u8>>) -> (r: Result<
        Vec<PortfolioName>,
        ApiError,
    >)
        ensures
            names_view(r) == names_outcome(bytes_view(reply), closed_message()),
    {
        match TransportPluginHost::forward_reply(reply) {
            Ok(data) => Ok(decode_names(&data)),
            Err(e) => Err(e),
        }
    }

    /// The request of a storage read.
    pub fn get_request(key: String) -> (r: Result<Vec<u8>, ApiError>)
        ensures
            is_call(
                call_view(r),
                seq![text_field("method"@, "storage_get"@), text_field("key"@, key@)],
            ),
    {
        proof {
            reveal_strlit("method");
            reveal_strlit("key");
            assert("key"@[0] != "method"@[0]);
        }
        keyed_call("storage_get", "key", key.as_str())
    }

    /// The value that a reply to a storage read says.
    pub fn get_reply(reply: Option<Vec<u8>>) -> (r: Result<Option<Vec<u8>>, ApiError>)
        ensures
            value_view(r) == value_outcome(bytes_view(reply)),
    {
        match TransportPluginHost::forward_reply(reply) {
            Ok(Json::Null) => Ok(None),
            Ok(data) => Ok(Some(decode_bytes(&data))),
            Err(e) => Err(e),
        }
    }

    /// The request of a storage write.
    pub fn set_request(key: String, value: Vec<u8>) -> (r: Result<Vec<u8>, ApiError>)
        ensures
            is_call(
                call_view(r),
                seq![
                    text_field("method"@, "storage_set"@),
                    text_field("key"@, key@),
                    ("value"@, JsonView::Array(byte_numbers(value@))),
                ],
            ),
    {
        proof {
            reveal_strlit("method");
            reveal_strlit("key");
            reveal_strlit("value");
            assert("key"@[0] != "value"@[0]);
        }
        valued_call("storage_set", "key", key.as_str(), "value", FieldValue::Bytes(value))
    }

    /// The request of an event.
    pub fn emit_request(event: PluginEvent) -> (r: Result<Vec<u8>, ApiError>)
        ensures
            is_call(
                call_view(r),
                seq![
                    text_field("method"@, "emit_event"@),
                    text_field("name"@, event.kind@),
                    ("payload"@, JsonView::Array(byte_numbers(event.payload@))),
                ],
            ),
    {
        proof {
            reveal_strlit("method");
            reveal_strlit("name");
            reveal_strlit("payload");
            assert("name"@[0] != "payload"@[0]);
        }
        valued_call(
            "emit_event",
            "name",
            event.kind.as_str(),
            "payload",
            FieldValue::Bytes(event.payload),
        )
    }

    /// The request of a log line. Its reply is ignored.
    pub fn log_request(level: Level, message: String) -> (r: Result<Vec<u8>, ApiError>)
        ensures
            is_call(
                call_view(r),
                seq![
                    text_field("method"@, "log"@),
                    text_field("level"@, level_name(level)),
                    text_field("message"@, message@),
                ],
            ),
    {
        proof {
            reveal_strlit("method");
            reveal_strlit("level");
            reveal_strlit("message");
            assert("level"@[0] != "message"@[0]);
            assert("message"@[2] != "method"@[2]);
        }
        valued_call("log", "level", level_str(level), "message", FieldValue::Text(message))
    }

    /// Not wired: always the not-found error.
    pub fn read_sheet_structure(portfolio_id: String) -> (r: Result<(), ApiError>)
        ensures
            r is Err,
            r->Err_0@ == not_wired_error("read-sheet-structure"@),
    {
        Err(not_wired("read-sheet-structure"))
    }

    /// Not wired: always the not-found error.
    pub fn read_asset_count(portfolio_id: String) -> (r: Result<(), ApiError>)
        ensures
            r is Err,
            r->Err_0@ == not_wired_error("read-asset-count"@),
    {
        Err(not_wired("read-asset-count"))
    }

    /// Not wired: always the not-found error.
    pub fn read_currency_rates() -> (r: Result<(), ApiError>)
        ensures
            r is Err,
            r->Err_0@ == not_wired_error("read-currency-rates"@),
    {
        Err(not_wired("read-currency-rates"))
    }

    /// Not wired: always the not-found error.
    pub fn read_aggregated_values(portfolio_id: String) -> (r: Result<(), ApiError>)
        ensures
            r is Err,
            r->Err_0@ == not_wired_error("read-aggregated-values"@),
    {
        Err(not_wired("read-aggregated-values"))
    }

    /// Not wired: always the not-found error.
    pub fn write_external_file(filename: String, content: Vec<u8>) -> (r: Result<(), ApiError>)
        ensures
            r is Err,
            r->Err_0@ == not_wired_error("write-external-file"@),
    {
        Err(not_wired("write-external-file"))
    }

    /// Not wired: always the not-found error.
    pub fn delete(key: String) -> (r: Result<(), ApiError>)
        ensures
            r is Err,
            r->Err_0@ == not_wired_error("storage.delete"@),
    {
        Err(not_wired("storage.delete"))
    }

    /// Not wired: always the not-found error.
    pub fn clear() -> (r: Result<(), ApiError>)
        ensures
            r is Err,
            r->Err_0@ == not_wired_error("storage.clear"@),
    {
        Err(not_wired("storage.clear"))
    }

    /// Not wired: always the not-found error.
    pub fn list_keys() -> (r: Result<Vec<String>, ApiError>)
        ensures
            r is Err,
            r->Err_0@ == not_wired_error("storage.list-keys"@),
    {
        Err(not_wired("storage.list-keys"))
    }
}

// ── Laws ────────────────────────────────────────────────────────────────────

/// The caller reads from a read of the portfolio names its method.
pub proof fn law_names_request_says_so(
    r: Result<Vec<u8>, ApiError>,
)
    requires
        call_ensures(TransportPluginHost::read_portfolio_names_request, (), r),
    ensures
        r matches Ok(bytes) && json_text(bytes@) is Ok && member(json_text(bytes@)->Ok_0, "method"@) == Some(
                JsonView::Text("read:portfolio_names"@),
            ),
{
    reveal_strlit("method");
    let members = seq![
        ("method"@, JsonView::Text("read:portfolio_names"@)),
    ];
    let bytes = r->Ok_0@;
    lemma_call_of_members(bytes, members);
    assert(members[0].0 == "method"@);
}

/// The caller reads from a storage read its method and the key.
pub proof fn law_get_request_names_the_key(
    key: String,
    r: Result<Vec<u8>, ApiError>,
)
    requires
        call_ensures(TransportPluginHost::get_request, (key,), r),
    ensures
        r matches Ok(bytes) && json_text(bytes@) is Ok && member(json_text(bytes@)->Ok_0, "method"@) == Some(
                JsonView::Text("storage_get"@),
            ) && member(json_text(bytes@)->Ok_0, "key"@) == Some(
                JsonView::Text(key@),
            ),
{
    reveal_strlit("method");
    reveal_strlit("key");
    assert("method"@[0] != "key"@[0]);
    let members = seq![
        ("method"@, JsonView::Text("storage_get"@)),
        ("key"@, JsonView::Text(key@)),
    ];
    let bytes = r->Ok_0@;
    lemma_call_of_members(bytes, members);
    assert(members[0].0 == "method"@);
    assert(members[1].0 == "key"@);
}

/// The caller reads from a storage write its method, the key, and the value as an array of numbers.
pub proof fn law_set_request_carries_the_value(
    key: String,
    value: Vec<u8>,
    r: Result<Vec<u8>, ApiError>,
)
    requires
        call_ensures(TransportPluginHost::set_request, (key, value), r),
    ensures
        r matches Ok(bytes) && json_text(bytes@) is Ok && member(json_text(bytes@)->Ok_0, "method"@) == Some(
                JsonView::Text("storage_set"@),
            ) && member(json_text(bytes@)->Ok_0, "key"@) == Some(
                JsonView::Text(key@),
            ) && member(json_text(bytes@)->Ok_0, "value"@) == Some(
                JsonView::Array(byte_numbers(value@)),
            ),
{
    reveal_strlit("method");
    reveal_strlit("key");
    reveal_strlit("value");
    assert("method"@[0] != "key"@[0]);
    assert("method"@[0] != "value"@[0]);
    assert("key"@[0] != "value"@[0]);
    let members = seq![
        ("method"@, JsonView::Text("storage_set"@)),
        ("key"@, JsonView::Text(key@)),
        ("value"@, JsonView::Array(byte_numbers(value@))),
    ];
    let bytes = r->Ok_0@;
    lemma_call_of_members(bytes, members);
    assert(members[0].0 == "method"@);
    assert(members[1].0 == "key"@);
    assert(members[2].0 == "value"@);
}

/// The caller reads from an event its method, its kind as the name, and its payload as an array of numbers.
pub proof fn law_emit_request_carries_the_event(
    event: PluginEvent,
    r: Result<Vec<u8>, ApiError>,
)
    requires
        call_ensures(TransportPluginHost::emit_request, (event,), r),
    ensures
        r matches Ok(bytes) && json_text(bytes@) is Ok && member(json_text(bytes@)->Ok_0, "method"@) == Some(
                JsonView::Text("emit_event"@),
            ) && member(json_text(bytes@)->Ok_0, "name"@) == Some(
                JsonView::Text(event.kind@),
            ) && member(json_text(bytes@)->Ok_0, "payload"@) == Some(
                JsonView::Array(byte_numbers(event.payload@)),
            ),
{
    reveal_strlit("method");
    reveal_strlit("name");
    reveal_strlit("payload");
    assert("method"@[0] != "name"@[0]);
    assert("method"@[0] != "payload"@[0]);
    assert("name"@[0] != "payload"@[0]);
    let members = seq![
        ("method"@, JsonView::Text("emit_event"@)),
        ("name"@, JsonView::Text(event.kind@)),
        ("payload"@, JsonView::Array(byte_numbers(event.payload@))),
    ];
    let bytes = r->Ok_0@;
    lemma_call_of_members(bytes, members);
    assert(members[0].0 == "method"@);
    assert(members[1].0 == "name"@);
    assert(members[2].0 == "payload"@);
}

/// The caller reads from a log line its method, the level by its name, and the message.
pub proof fn law_log_request_carries_the_line(
    level: Level,
    message: String,
    r: Result<Vec<u8>, ApiError>,
)
    requires
        call_ensures(TransportPluginHost::log_request, (level, message), r),
    ensures
        r matches Ok(bytes) && json_text(bytes@) is Ok && member(json_text(bytes@)->Ok_0, "method"@) == Some(
                JsonView::Text("log"@),
            ) && member(json_text(bytes@)->Ok_0, "level"@) == Some(
                JsonView::Text(match level {
                    Level::Trace => "trace"@,
                    Level::Debug => "debug"@,
                    Level::Info => "info"@,
                    Level::Warn => "warn"@,
                    Level::Error => "error"@,
                }),
            ) && member(json_text(bytes@)->Ok_0, "message"@) == Some(
                JsonView::Text(message@),
            ),
{
    reveal_strlit("method");
    reveal_strlit("level");
    reveal_strlit("message");
    assert("method"@[0] != "level"@[0]);
    assert("method"@[2] != "message"@[2]);
    assert("level"@[0] != "message"@[0]);
    let members = seq![
        ("method"@, JsonView::Text("log"@)),
        ("level"@, JsonView::Text(match level {
                    Level::Trace => "trace"@,
                    Level::Debug => "debug"@,
                    Level::Info => "info"@,
                    Level::Warn => "warn"@,
                    Level::Error => "error"@,
                })),
        ("message"@, JsonView::Text(message@)),
    ];
    let bytes = r->Ok_0@;
    lemma_call_of_members(bytes, members);
    assert(members[0].0 == "method"@);
    assert(members[1].0 == "level"@);
    assert(members[2].0 == "message"@);
}

/// A read gives the bytes of the reply's data, and nothing where it is null; a
/// call without a result succeeds exactly where its reply does.
pub proof fn law_replies_are_read(reply: Option<Seq<u8>>)
    ensures
        wire_outcome(reply, "host transport closed"@) matches Ok(data) ==> ack_outcome(reply)
            == Ok::<(), ApiErrorView>(()) && value_outcome(reply) == Ok::<
            Option<Seq<u8>>,
            ApiErrorView,
        >(
            if data is Null {
                None
            } else {
                Some(bytes_in(data))
            },
        ),
        wire_outcome(reply, "host transport closed"@) matches Err(e) ==> ack_outcome(reply)
            == Err::<(), ApiErrorView>(e) && value_outcome(reply) == Err::<
            Option<Seq<u8>>,
            ApiErrorView,
        >(e),
{
}

/// A value that was written and comes back as numbers is read as the same bytes;
/// null means that there is none.
pub proof fn law_read_returns_what_was_written(
    value: Seq<u8>,
    reply: Vec<u8>,
    r: Result<Option<Vec<u8>>, ApiError>,
)
    requires
        call_ensures(TransportPluginHost::get_reply, (Some(reply),), r),
        json_text(reply@) is Ok,
        member(json_text(reply@)->Ok_0, "ok"@) == Some(JsonView::Bool(true)),
    ensures
        member(json_text(reply@)->Ok_0, "data"@) == Some(JsonView::Array(byte_numbers(value)))
            ==> (r matches Ok(Some(v)) && v@ == value),
        member(json_text(reply@)->Ok_0, "data"@) == Some(JsonView::Null) ==> r matches Ok(None),
        member(json_text(reply@)->Ok_0, "data"@) is None ==> r matches Ok(None),
{
    crate::host_wire::law_numbers_round_trip(value);
}

} // verus!
