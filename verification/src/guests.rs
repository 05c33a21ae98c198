//! The probe guests: what each of them does with what its host gives it.
//!
//! A guest calls its host and waits. What it decides between the calls is here;
//! making the calls is the driver's work.
use crate::api::{
    name_views, text_bytes, ApiError, ApiErrorView, EventView, PluginEvent, PortfolioName,
    PortfolioNameView,
};
use crate::digits::{decimal, decimal_text};
use crate::host_wire::names_view;
use crate::http_head::{join, string_views};
use crate::wasi_http::ErrorCode;
use vstd::prelude::*;
use vstd::utf8::encode_utf8;

verus! {

/// The marker with which a guest reports an error: `ERR:` and the code.
pub open spec fn err_text(e: ApiErrorView) -> Seq<char> {
    "ERR:"@ + e.code
}

/// The marker for an error.
fn err_marker(e: &ApiError) -> (bytes: Vec<u8>)
    ensures
        bytes@ == encode_utf8(err_text(e@)),
{
    text_bytes(String::from_str("ERR:").concat(e.code.as_str()).as_str())
}

// ── The workspace guests ────────────────────────────────────────────────────

/// The probe guest's `read-names`: the names, or none where the read failed.
pub fn read_names(reply: Result<Vec<PortfolioName>, ApiError>) -> (names: Vec<PortfolioName>)
    ensures
        name_views(names@) == (match names_view(reply) {
            Ok(n) => n,
            Err(_) => seq![],
        }),
{
    match reply {
        Ok(names) => names,
        Err(_) => {
            let none: Vec<PortfolioName> = Vec::new();
            assert(name_views(none@) =~= seq![]);
            none
        },
    }
}

/// A portfolio as the run guest writes it.
pub open spec fn name_text(n: PortfolioNameView) -> Seq<char> {
    n.id + seq!['='] + n.name
}

/// The portfolios as the run guest writes them.
pub open spec fn names_text(names: Seq<PortfolioNameView>) -> Seq<char> {
    join(names.map_values(|n: PortfolioNameView| name_text(n)), ';')
}

/// The run guest's result: the names, or the error marker.
pub fn workspace_run(reply: Result<Vec<PortfolioName>, ApiError>) -> (out: Vec<u8>)
    ensures
        out@ == encode_utf8(
            match names_view(reply) {
                Ok(names) => names_text(names),
                Err(e) => err_text(e),
            },
        ),
{
    match reply {
        Err(e) => err_marker(&e),
        Ok(names) => {
            let ghost all = name_views(names@).map_values(|n: PortfolioNameView| name_text(n));
            let mut text = String::new();
            let mut i: usize = 0;
            assert(all.skip(0) =~= all);
            assert(text@ + join(all, ';') =~= join(all, ';'));
            while i < names.len()
                invariant
                    i <= names@.len(),
                    all == name_views(names@).map_values(|n: PortfolioNameView| name_text(n)),
                    text@ + join(all.skip(i as int), ';') == join(all, ';'),
                decreases names.len() - i,
            {
                let ghost before = text@;
                let ghost rest = all.skip(i as int);
                text.append(names[i].id.as_str());
                text.push('=');
                text.append(names[i].name.as_str());
                proof {
                    assert(rest[0] == name_text(names@[i as int]@));
                    assert(text@ =~= before + rest[0]);
                    assert(rest.drop_first() =~= all.skip(i + 1));
                }
                if i + 1 < names.len() {
                    text.push(';');
                    proof {
                        let tail = join(all.skip(i + 1), ';');
                        assert(join(rest, ';') == rest[0] + seq![';'] + tail);
                        assert(text@ + tail =~= before + (rest[0] + seq![';'] + tail));
                    }
                } else {
                    assert(all.skip(i + 1) =~= Seq::empty());
                    assert(text@ + join(all.skip(i + 1), ';') =~= before + rest[0]);
                }
                i += 1;
            }
            assert(all.skip(all.len() as int) =~= Seq::empty());
            assert(text@ + Seq::<char>::empty() =~= text@);
            text_bytes(text.as_str())
        },
    }
}

// ── The storage and events guest ────────────────────────────────────────────

/// A call that the storage guest makes, or its result.
pub enum StorageCall {
    Put { key: String, value: Vec<u8> },
    Get { key: String },
    ListKeys,
    Delete { key: String },
    Emit(PluginEvent),
    Finish(Vec<u8>),
}

/// A call as a mathematical value.
pub enum StorageCallView {
    Put { key: Seq<char>, value: Seq<u8> },
    Get { key: Seq<char> },
    ListKeys,
    Delete { key: Seq<char> },
    Emit(EventView),
    Finish(Seq<u8>),
}

impl View for StorageCall {
    type V = StorageCallView;

    open spec fn view(&self) -> StorageCallView {
        match self {
            StorageCall::Put { key, value } => StorageCallView::Put { key: key@, value: value@ },
            StorageCall::Get { key } => StorageCallView::Get { key: key@ },
            StorageCall::ListKeys => StorageCallView::ListKeys,
            StorageCall::Delete { key } => StorageCallView::Delete { key: key@ },
            StorageCall::Emit(e) => StorageCallView::Emit(e@),
            StorageCall::Finish(out) => StorageCallView::Finish(out@),
        }
    }
}

/// What the host replied to a call.
pub enum StorageReply {
    /// To a write, a deletion or an event.
    Done(Result<(), ApiError>),
    /// To a read.
    Value(Result<Option<Vec<u8>>, ApiError>),
    /// To a listing.
    Keys(Result<Vec<String>, ApiError>),
}

/// A reply as a mathematical value.
pub enum StorageReplyView {
    Done(Result<(), ApiErrorView>),
    Value(Result<Option<Seq<u8>>, ApiErrorView>),
    Keys(Result<Seq<Seq<char>>, ApiErrorView>),
}

impl View for StorageReply {
    type V = StorageReplyView;

    open spec fn view(&self) -> StorageReplyView {
        match self {
            StorageReply::Done(Ok(_)) => StorageReplyView::Done(Ok(())),
            StorageReply::Done(Err(e)) => StorageReplyView::Done(Err(e@)),
            StorageReply::Value(Ok(Some(v))) => StorageReplyView::Value(Ok(Some(v@))),
            StorageReply::Value(Ok(None)) => StorageReplyView::Value(Ok(None)),
            StorageReply::Value(Err(e)) => StorageReplyView::Value(Err(e@)),
            StorageReply::Keys(Ok(k)) => StorageReplyView::Keys(Ok(string_views(k@))),
            StorageReply::Keys(Err(e)) => StorageReplyView::Keys(Err(e@)),
        }
    }
}

/// Where the storage guest stands: the call whose reply it awaits, with what it
/// has learned.
pub enum StorageGuest {
    SettingGreeting,
    SettingCount,
    Getting,
    Listing { greeting: Vec<u8> },
    Deleting { greeting: Vec<u8>, count1: usize },
    ListingAgain { greeting: Vec<u8>, count1: usize },
    Emitting { greeting: Vec<u8>, count1: usize, count2: usize },
    Finished,
}

/// Where the storage guest stands, as a mathematical value.
pub enum StorageGuestView {
    SettingGreeting,
    SettingCount,
    Getting,
    Listing { greeting: Seq<u8> },
    Deleting { greeting: Seq<u8>, count1: nat },
    ListingAgain { greeting: Seq<u8>, count1: nat },
    Emitting { greeting: Seq<u8>, count1: nat, count2: nat },
    Finished,
}

impl View for StorageGuest {
    type V = StorageGuestView;

    open spec fn view(&self) -> StorageGuestView {
        match self {
            StorageGuest::SettingGreeting => StorageGuestView::SettingGreeting,
            StorageGuest::SettingCount => StorageGuestView::SettingCount,
            StorageGuest::Getting => StorageGuestView::Getting,
            StorageGuest::Listing { greeting } => StorageGuestView::Listing {
                greeting: greeting@,
            },
            StorageGuest::Deleting { greeting, count1 } => StorageGuestView::Deleting {
                greeting: greeting@,
                count1: *count1 as nat,
            },
            StorageGuest::ListingAgain { greeting, count1 } => StorageGuestView::ListingAgain {
                greeting: greeting@,
                count1: *count1 as nat,
            },
            StorageGuest::Emitting { greeting, count1, count2 } => StorageGuestView::Emitting {
                greeting: greeting@,
                count1: *count1 as nat,
                count2: *count2 as nat,
            },
            StorageGuest::Finished => StorageGuestView::Finished,
        }
    }
}

/// The guest's summary: what it read, and the two key counts.
pub open spec fn storage_summary(greeting: Seq<u8>, count1: nat, count2: nat) -> Seq<u8> {
    greeting + encode_utf8("|"@ + decimal(count1) + "|"@ + decimal(count2))
}

/// The guest ends with an error marker.
pub open spec fn storage_failed(e: ApiErrorView) -> (StorageGuestView, StorageCallView) {
    (StorageGuestView::Finished, StorageCallView::Finish(encode_utf8(err_text(e))))
}

/// What the guest does after a reply. A reply that does not fit its state ends
/// it with an empty result.
pub open spec fn storage_next(state: StorageGuestView, reply: StorageReplyView) -> (
    StorageGuestView,
    StorageCallView,
) {
    match (state, reply) {
        (StorageGuestView::SettingGreeting, StorageReplyView::Done(r)) => match r {
            Ok(_) => (
                StorageGuestView::SettingCount,
                StorageCallView::Put { key: "count"@, value: seq![7u8] },
            ),
            Err(e) => storage_failed(e),
        },
        (StorageGuestView::SettingCount, StorageReplyView::Done(r)) => match r {
            Ok(_) => (StorageGuestView::Getting, StorageCallView::Get { key: "greeting"@ }),
            Err(e) => storage_failed(e),
        },
        (StorageGuestView::Getting, StorageReplyView::Value(r)) => match r {
            Ok(v) => (
                StorageGuestView::Listing {
                    greeting: match v {
                        Some(bytes) => bytes,
                        None => seq![],
                    },
                },
                StorageCallView::ListKeys,
            ),
            Err(e) => storage_failed(e),
        },
        (StorageGuestView::Listing { greeting }, StorageReplyView::Keys(r)) => match r {
            Ok(keys) => (
                StorageGuestView::Deleting { greeting, count1: keys.len() },
                StorageCallView::Delete { key: "count"@ },
            ),
            Err(e) => storage_failed(e),
        },
        (StorageGuestView::Deleting { greeting, count1 }, StorageReplyView::Done(r)) => match r {
            Ok(_) => (
                StorageGuestView::ListingAgain { greeting, count1 },
                StorageCallView::ListKeys,
            ),
            Err(e) => storage_failed(e),
        },
        (StorageGuestView::ListingAgain { greeting, count1 }, StorageReplyView::Keys(r)) =>
        match r {
            Ok(keys) => (
                StorageGuestView::Emitting { greeting, count1, count2: keys.len() },
                StorageCallView::Emit(EventView { kind: "ready"@, payload: encode_utf8("ok"@) }),
            ),
            Err(e) => storage_failed(e),
        },
        (StorageGuestView::Emitting { greeting, count1, count2 }, StorageReplyView::Done(r)) =>
        match r {
            Ok(_) => (
                StorageGuestView::Finished,
                StorageCallView::Finish(storage_summary(greeting, count1, count2)),
            ),
            Err(e) => storage_failed(e),
        },
        _ => (StorageGuestView::Finished, StorageCallView::Finish(seq![])),
    }
}

impl StorageGuest {
    /// The guest's first call: it stores a greeting.
    pub fn start() -> (r: (StorageGuest, StorageCall))
        ensures
            r.0@ == StorageGuestView::SettingGreeting,
            r.1@ == (StorageCallView::Put {
                key: "greeting"@,
                value: encode_utf8("hello"@),
            }),
    {
        (
            StorageGuest::SettingGreeting,
            StorageCall::Put { key: "greeting".to_owned(), value: text_bytes("hello") },
        )
    }

    /// The guest ends with an error marker.
    fn fail(e: &ApiError) -> (r: (StorageGuest, StorageCall))
        ensures
            (r.0@, r.1@) == storage_failed(e@),
    {
        (StorageGuest::Finished, StorageCall::Finish(err_marker(e)))
    }

    /// The guest's next call after a reply.
    pub fn step(self, reply: StorageReply) -> (r: (StorageGuest, StorageCall))
        ensures
            (r.0@, r.1@) == storage_next(self@, reply@),
    {
        match (self, reply) {
            (StorageGuest::SettingGreeting, StorageReply::Done(r)) => match r {
                Ok(_) => {
                    let mut value: Vec<u8> = Vec::new();
                    value.push(7);
                    assert(value@ =~= seq![7u8]);
                    (
                        StorageGuest::SettingCount,
                        StorageCall::Put { key: "count".to_owned(), value },
                    )
                },
                Err(e) => StorageGuest::fail(&e),
            },
            (StorageGuest::SettingCount, StorageReply::Done(r)) => match r {
                Ok(_) => (
                    StorageGuest::Getting,
                    StorageCall::Get { key: "greeting".to_owned() },
                ),
                Err(e) => StorageGuest::fail(&e),
            },
            (StorageGuest::Getting, StorageReply::Value(r)) => match r {
                Ok(v) => {
                    let greeting = match v {
                        Some(bytes) => bytes,
                        None => Vec::new(),
                    };
                    (StorageGuest::Listing { greeting }, StorageCall::ListKeys)
                },
                Err(e) => StorageGuest::fail(&e),
            },
            (StorageGuest::Listing { greeting }, StorageReply::Keys(r)) => match r {
                Ok(keys) => (
                    StorageGuest::Deleting { greeting, count1: keys.len() },
                    StorageCall::Delete { key: "count".to_owned() },
                ),
                Err(e) => StorageGuest::fail(&e),
            },
            (StorageGuest::Deleting { greeting, count1 }, StorageReply::Done(r)) => match r {
                Ok(_) => (
                    StorageGuest::ListingAgain { greeting, count1 },
                    StorageCall::ListKeys,
                ),
                Err(e) => StorageGuest::fail(&e),
            },
            (StorageGuest::ListingAgain { greeting, count1 }, StorageReply::Keys(r)) => match r {
                Ok(keys) => (
                    StorageGuest::Emitting { greeting, count1, count2: keys.len() },
                    StorageCall::Emit(
                        PluginEvent { kind: "ready".to_owned(), payload: text_bytes("ok") },
                    ),
                ),
                Err(e) => StorageGuest::fail(&e),
            },
            (StorageGuest::Emitting { greeting, count1, count2 }, StorageReply::Done(r)) =>
            match r {
                Ok(_) => {
                    let n1 = decimal_text(count1 as u64);
                    let n2 = decimal_text(count2 as u64);
                    let counts = String::from_str("|").concat(n1.as_str()).concat("|").concat(
                        n2.as_str(),
                    );
                    let mut tail = text_bytes(counts.as_str());
                    let mut out = greeting;
                    out.append(&mut tail);
                    (StorageGuest::Finished, StorageCall::Finish(out))
                },
                Err(e) => StorageGuest::fail(&e),
            },
            (_, _) => {
                let none: Vec<u8> = Vec::new();
                assert(none@ =~= seq![]);
                (StorageGuest::Finished, StorageCall::Finish(none))
            },
        }
    }
}

// ── The inference guest ─────────────────────────────────────────────────────

/// The tokens of a completion, one after another.
pub open spec fn tokens_text(tokens: Seq<String>) -> Seq<char>
    decreases tokens.len(),
{
    if tokens.len() == 0 {
        seq![]
    } else {
        tokens_text(tokens.drop_last()) + tokens.last()@
    }
}

/// The inference guest's result: the tokens, one after another; nothing where
/// the completion was refused.
pub fn inference_run(tokens: Result<Vec<String>, ApiError>) -> (out: Vec<u8>)
    ensures
        match tokens {
            Ok(t) => out@ == encode_utf8(tokens_text(t@)),
            Err(_) => out@ == Seq::<u8>::empty(),
        },
{
    let tokens = match tokens {
        Ok(t) => t,
        Err(_) => {
            return Vec::new();
        },
    };
    let mut text = String::new();
    let mut i: usize = 0;
    assert(tokens@.take(0) =~= Seq::empty());
    while i < tokens.len()
        invariant
            i <= tokens@.len(),
            text@ == tokens_text(tokens@.take(i as int)),
        decreases tokens.len() - i,
    {
        text.append(tokens[i].as_str());
        proof {
            assert(tokens@.take(i + 1).drop_last() =~= tokens@.take(i as int));
            assert(tokens@.take(i + 1).last() == tokens@[i as int]);
        }
        i += 1;
    }
    assert(tokens@.take(tokens@.len() as int) =~= tokens@);
    text_bytes(text.as_str())
}

// ── The HTTP guests ─────────────────────────────────────────────────────────

/// The HTTP guests' result: the status, low byte first, and the body; nothing
/// where the request failed.
pub fn http_run(response: Result<(u16, Vec<u8>), ErrorCode>) -> (out: Vec<u8>)
    ensures
        match response {
            Ok((status, body)) => out@ == seq![(status % 256) as u8, (status / 256) as u8] + body@,
            Err(_) => out@ == Seq::<u8>::empty(),
        },
{
    match response {
        Ok((status, body)) => {
            let mut out: Vec<u8> = Vec::new();
            out.push((status % 256) as u8);
            out.push((status / 256) as u8);
            let mut rest = body;
            out.append(&mut rest);
            assert(out@ =~= seq![(status % 256) as u8, (status / 256) as u8] + body@);
            out
        },
        Err(_) => Vec::new(),
    }
}

/// What became of an outbound request.
pub enum Dispatch {
    /// It was rejected before it was sent.
    Rejected(ErrorCode),
    /// It was answered with this status.
    Answered(u16),
    /// It failed.
    Failed(ErrorCode),
    /// There is no result.
    Lost,
}

/// The outbound guest's result: the status, or a marker. A denial is told apart
/// from every other failure.
pub fn outbound_run(d: Dispatch) -> (r: Result<u16, u8>)
    ensures
        r == (match d {
            Dispatch::Answered(status) => Ok::<u16, u8>(status),
            Dispatch::Rejected(ErrorCode::HttpRequestDenied) => Err::<u16, u8>(2),
            Dispatch::Rejected(_) => Err::<u16, u8>(1),
            Dispatch::Failed(ErrorCode::HttpRequestDenied) => Err::<u16, u8>(2),
            Dispatch::Failed(_) => Err::<u16, u8>(3),
            Dispatch::Lost => Err::<u16, u8>(4),
        }),
{
    match d {
        Dispatch::Answered(status) => Ok(status),
        Dispatch::Rejected(ec) => match ec {
            ErrorCode::HttpRequestDenied => Err(2),
            _ => Err(1),
        },
        Dispatch::Failed(ec) => match ec {
            ErrorCode::HttpRequestDenied => Err(2),
            _ => Err(3),
        },
        Dispatch::Lost => Err(4),
    }
}

// ── Laws ────────────────────────────────────────────────────────────────────

/// The run guest writes the portfolios in order, each as its id, `=` and its name,
/// with `;` between two of them; an error is `ERR:` and its code.
pub proof fn law_names_are_written_in_order(
    names: Seq<PortfolioNameView>,
    n: PortfolioNameView,
    e: ApiErrorView,
)
    ensures
        names_text(seq![]) == Seq::<char>::empty(),
        names_text(names.push(n)) == (if names.len() == 0 {
            seq![]
        } else {
            names_text(names) + ";"@
        }) + n.id + "="@ + n.name,
        err_text(e) == "ERR:"@ + e.code,
{
    reveal_strlit(";");
    reveal_strlit("=");
    let text = |m: PortfolioNameView| name_text(m);
    let parts = names.map_values(text);
    assert(names.push(n).map_values(text) =~= parts.push(name_text(n)));
    crate::http_head::law_join_puts_the_separator_between(parts, name_text(n), ';');
    assert(names_text(names.push(n)) =~= (if names.len() == 0 {
        seq![]
    } else {
        names_text(names) + ";"@
    }) + n.id + "="@ + n.name);
}

/// The run guest reports the names that it was given, and the error where it was
/// given one.
pub proof fn law_workspace_guest_reports_the_reply(
    reply: Result<Vec<PortfolioName>, ApiError>,
    out: Vec<u8>,
)
    requires
        call_ensures(workspace_run, (reply,), out),
    ensures
        reply matches Ok(names) ==> out@ == encode_utf8(names_text(name_views(names@))),
        reply matches Err(e) ==> out@ == encode_utf8("ERR:"@ + e.code@),
{
}

/// The tokens of a completion come out in order, with nothing between them.
pub proof fn law_tokens_keep_their_order(a: Seq<String>, b: Seq<String>, t: String)
    ensures
        tokens_text(seq![]) == Seq::<char>::empty(),
        tokens_text(a.push(t)) == tokens_text(a) + t@,
        tokens_text(a + b) == tokens_text(a) + tokens_text(b),
    decreases b.len(),
{
    assert(a.push(t).drop_last() =~= a);
    if b.len() == 0 {
        assert(a + b =~= a);
        assert(tokens_text(a) + tokens_text(b) =~= tokens_text(a));
    } else {
        let c = b.drop_last();
        law_tokens_keep_their_order(a, c, t);
        assert((a + b).drop_last() =~= a + c);
        assert((a + b).last() == b.last());
        assert(tokens_text(a + b) =~= tokens_text(a) + tokens_text(b));
    }
}

/// The inference guest's result is the tokens' text, and nothing where it was
/// refused.
pub proof fn law_inference_guest_reports_the_tokens(
    tokens: Result<Vec<String>, ApiError>,
    out: Vec<u8>,
)
    requires
        call_ensures(inference_run, (tokens,), out),
    ensures
        tokens matches Ok(t) ==> out@ == encode_utf8(tokens_text(t@)),
        tokens is Err ==> out@.len() == 0,
{
}

/// The HTTP guests' result holds the status in its first two bytes, low byte first,
/// and the body behind them.
pub proof fn law_http_guest_reports_status_and_body(
    response: Result<(u16, Vec<u8>), ErrorCode>,
    out: Vec<u8>,
)
    requires
        call_ensures(http_run, (response,), out),
    ensures
        response matches Ok((status, body)) ==> out@.len() == body@.len() + 2 && out@[0] + 256
            * out@[1] == status && out@.skip(2) == body@,
        response is Err ==> out@.len() == 0,
{
    if let Ok((status, body)) = response {
        assert(out@.skip(2) =~= body@);
    }
}

/// The outbound guest tells an answer from each kind of failure, and a denial from
/// every other one.
pub proof fn law_outbound_guest_tells_denials_apart(d: Dispatch, r: Result<u16, u8>)
    requires
        call_ensures(outbound_run, (d,), r),
    ensures
        d matches Dispatch::Answered(status) ==> r == Ok::<u16, u8>(status),
        r == Err::<u16, u8>(2) <==> (d matches Dispatch::Rejected(ErrorCode::HttpRequestDenied)) || (
        d matches Dispatch::Failed(ErrorCode::HttpRequestDenied)),
        r == Err::<u16, u8>(4) <==> d is Lost,
        r is Ok <==> d is Answered,
        d is Rejected ==> r == Err::<u16, u8>(1) || r == Err::<u16, u8>(2),
        d is Failed ==> r == Err::<u16, u8>(3) || r == Err::<u16, u8>(2),
{
}

/// The storage guest's run on a host that grants everything: it writes a second
/// value, reads the greeting, lists, deletes the second value, lists again, emits
/// its event, and reports what it read and both counts.
pub proof fn law_storage_guest_runs_through(
    greeting: Seq<u8>,
    before: Seq<Seq<char>>,
    after: Seq<Seq<char>>,
)
    ensures
        ({
            let done = StorageReplyView::Done(Ok(()));
            let a = storage_next(StorageGuestView::SettingGreeting, done);
            let b = storage_next(a.0, done);
            let c = storage_next(b.0, StorageReplyView::Value(Ok(Some(greeting))));
            let d = storage_next(c.0, StorageReplyView::Keys(Ok(before)));
            let e = storage_next(d.0, done);
            let f = storage_next(e.0, StorageReplyView::Keys(Ok(after)));
            let g = storage_next(f.0, done);
            &&& a.1 == StorageCallView::Put { key: "count"@, value: seq![7u8] }
            &&& b.1 == StorageCallView::Get { key: "greeting"@ }
            &&& c.1 == StorageCallView::ListKeys
            &&& d.1 == StorageCallView::Delete { key: "count"@ }
            &&& e.1 == StorageCallView::ListKeys
            &&& f.1 == StorageCallView::Emit(
                EventView { kind: "ready"@, payload: encode_utf8("ok"@) },
            )
            &&& g.0 is Finished
            &&& g.1 == StorageCallView::Finish(
                greeting + encode_utf8("|"@ + decimal(before.len()) + "|"@ + decimal(after.len())),
            )
        }),
{
}

/// Whatever call of the storage guest is refused, the guest ends with `ERR:` and
/// the code of the refusal.
pub proof fn law_storage_guest_reports_a_refusal(
    e: ApiErrorView,
    greeting: Seq<u8>,
    count1: nat,
    count2: nat,
)
    ensures
        ({
            let end = (
                StorageGuestView::Finished,
                StorageCallView::Finish(encode_utf8("ERR:"@ + e.code)),
            );
            let done = StorageReplyView::Done(Err(e));
            let keys = StorageReplyView::Keys(Err(e));
            &&& storage_next(StorageGuestView::SettingGreeting, done) == end
            &&& storage_next(StorageGuestView::SettingCount, done) == end
            &&& storage_next(StorageGuestView::Getting, StorageReplyView::Value(Err(e))) == end
            &&& storage_next(StorageGuestView::Listing { greeting }, keys) == end
            &&& storage_next(StorageGuestView::Deleting { greeting, count1 }, done) == end
            &&& storage_next(StorageGuestView::ListingAgain { greeting, count1 }, keys) == end
            &&& storage_next(StorageGuestView::Emitting { greeting, count1, count2 }, done) == end
        }),
{
}

} // verus!
