//! The typed `workspace` host over the host-call wire.
//!
//! A guest's typed call becomes a request for the caller, and the caller's reply
//! becomes the typed result. Carrying the request out and the reply back is the
//! driver's work. Only `read-portfolio-names` is wired.
use crate::api::{copy_bytes, ApiError, ApiErrorView, PortfolioName, PortfolioNameView};
use crate::host_wire::{
    call_view, decode_names, error_view, is_call, lemma_call_of_members, method_call, names_in, names_view, read_reply,
    text_field, wire_outcome,
};
use crate::http_exchange::bytes_view;
use crate::json::{json_text, member, JsonView};
use vstd::prelude::*;

verus! {

/// The message for a transport that closed before it replied.
pub open spec fn closed_message() -> Seq<char> {
    "host transport closed before the call was serviced"@
}

/// The error of a workspace call that is not wired.
pub open spec fn not_wired_error(method: Seq<char>) -> ApiErrorView {
    error_view(
        "not-found"@,
        method + ": not wired in this C1 slice (read-portfolio-names only)"@,
    )
}

/// The names that a reply says.
pub open spec fn names_outcome(reply: Option<Seq<u8>>, closed: Seq<char>) -> Result<
    Seq<PortfolioNameView>,
    ApiErrorView,
> {
    match wire_outcome(reply, closed) {
        Ok(data) => Ok(names_in(data)),
        Err(e) => Err(e),
    }
}

/// The error of a call that is not wired.
fn not_wired(method: &str) -> (e: ApiError)
    ensures
        e@ == not_wired_error(method@),
{
    ApiError {
        code: "not-found".to_owned(),
        message: String::from_str(method).concat(
            ": not wired in this C1 slice (read-portfolio-names only)",
        ),
    }
}

/// Decodes the reply to a read of the portfolio names.
pub fn decode_portfolio_names(resp: &[u8]) -> (r: Result<Vec<PortfolioName>, ApiError>)
    ensures
        names_view(r) == names_outcome(Some(resp@), closed_message()),
{
    TransportWorkspaceHost::read_portfolio_names_reply(Some(copy_bytes(resp)))
}

/// The typed `workspace` host.
pub struct TransportWorkspaceHost;

impl TransportWorkspaceHost {
    /// The request of a typed read without arguments.
    pub fn forward_method(method: &str) -> (r: Result<Vec<u8>, ApiError>)
        ensures
            is_call(call_view(r), seq![text_field("method"@, method@)]),
    {
        method_call(method)
    }

    /// The request for the portfolio names.
    pub fn read_portfolio_names_request() -> (r: Result<Vec<u8>, ApiError>)
        ensures
            is_call(call_view(r), seq![text_field("method"@, "read:portfolio_names"@)]),
    {
        TransportWorkspaceHost::forward_method("read:portfolio_names")
    }

    /// The portfolio names that a reply says.
    pub fn read_portfolio_names_reply(reply: Option<Vec<u8>>) -> (r: Result<
        Vec<PortfolioName>,
        ApiError,
    >)
        ensures
            names_view(r) == names_outcome(bytes_view(reply), closed_message()),
    {
        match read_reply(reply, "host transport closed before the call was serviced") {
            Ok(data) => Ok(decode_names(&data)),
            Err(e) => Err(e),
        }
    }

    /// Not wired: always the not-found error.
    pub fn read_sheet_structure(portfolio_id: String) -> (r: Result<(), ApiError>)
        ensures
            r is Err,
            r->Err_0@ == not_wired_error("read-sheet-structure"@),
    {
        Err(not_wired("read-sheet-structure"))
    }

    /// Not wired: always the not-found error.
    pub fn read_asset_count(portfolio_id: String) -> (r: Result<(), ApiError>)
        ensures
            r is Err,
            r->Err_0@ == not_wired_error("read-asset-count"@),
    {
        Err(not_wired("read-asset-count"))
    }

    /// Not wired: always the not-found error.
    pub fn read_currency_rates() -> (r: Result<(), ApiError>)
        ensures
            r is Err,
            r->Err_0@ == not_wired_error("read-currency-rates"@),
    {
        Err(not_wired("read-currency-rates"))
    }

    /// Not wired: always the not-found error.
    pub fn read_aggregated_values(portfolio_id: String) -> (r: Result<(), ApiError>)
        ensures
            r is Err,
            r->Err_0@ == not_wired_error("read-aggregated-values"@),
    {
        Err(not_wired("read-aggregated-values"))
    }

    /// Not wired: always the not-found error.
    pub fn write_external_file(filename: String, content: Vec<u8>) -> (r: Result<(), ApiError>)
        ensures
            r is Err,
            r->Err_0@ == not_wired_error("write-external-file"@),
    {
        Err(not_wired("write-external-file"))
    }
}

// ── Laws ────────────────────────────────────────────────────────────────────

/// The caller reads from a read of the portfolio names its method.
pub proof fn law_names_request_says_so(
    r: Result<Vec<u8>, ApiError>,
)
    requires
        call_ensures(TransportWorkspaceHost::read_portfolio_names_request, (), r),
    ensures
        r matches Ok(bytes) && json_text(bytes@) is Ok && member(json_text(bytes@)->Ok_0, "method"@) == Some(
                JsonView::Text("read:portfolio_names"@),
            ),
{
    reveal_strlit("method");
    let members = seq![
        ("method"@, JsonView::Text("read:portfolio_names"@)),
    ];
    let bytes = r->Ok_0@;
    lemma_call_of_members(bytes, members);
    assert(members[0].0 == "method"@);
}

/// The names are those of the reply's data; a failed call fails the read. A call
/// that is not wired is not found.
pub proof fn law_names_come_from_the_reply(
    reply: Option<Seq<u8>>,
    closed: Seq<char>,
    method: Seq<char>,
)
    ensures
        wire_outcome(reply, closed) matches Ok(data) ==> names_outcome(reply, closed) == Ok::<
            Seq<PortfolioNameView>,
            ApiErrorView,
        >(names_in(data)),
        wire_outcome(reply, closed) matches Err(e) ==> names_outcome(reply, closed) == Err::<
            Seq<PortfolioNameView>,
            ApiErrorView,
        >(e),
        not_wired_error(method) == (ApiErrorView {
            code: "not-found"@,
            message: method + ": not wired in this C1 slice (read-portfolio-names only)"@,
        }),
{
}

/// The names of a reply come back in its order, each with its id and name; a reply
/// that does not say `ok` yields none.
pub proof fn law_names_are_those_of_the_reply(
    reply: &[u8],
    r: Result<Vec<PortfolioName>, ApiError>,
    items: Seq<JsonView>,
    i: int,
)
    requires
        call_ensures(decode_portfolio_names, (reply,), r),
        json_text(reply@) is Ok,
    ensures
        r is Ok <==> member(json_text(reply@)->Ok_0, "ok"@) == Some(JsonView::Bool(true)),
        r matches Ok(names) ==> member(json_text(reply@)->Ok_0, "data"@) == Some(
            JsonView::Array(items),
        ) ==> names@.len() == items.len() && (0 <= i < items.len() ==> (member(
            items[i],
            "id"@,
        ) matches Some(JsonView::Text(t)) ==> names@[i].id@ == t) && (member(
            items[i],
            "name"@,
        ) matches Some(JsonView::Text(t)) ==> names@[i].name@ == t)),
{
    if let Ok(names) = r {
        let read = crate::api::name_views(names@);
        if member(json_text(reply@)->Ok_0, "data"@) == Some(JsonView::Array(items)) {
            assert(read == names_in(JsonView::Array(items)));
            assert(read.len() == names@.len());
            assert(names_in(JsonView::Array(items)).len() == items.len());
            if 0 <= i < items.len() {
                crate::host_wire::law_names_keep_their_order(JsonView::Null, items, i);
                assert(read[i] == names@[i]@);
            }
        }
    }
}

} // verus!
