//! The types that the plugin capability interfaces share.
use vstd::prelude::*;

verus! {

/// The error of a capability call: a stable code and a message that is safe to
/// show.
#[derive(Debug, Clone, PartialEq, Eq)]
pub struct ApiError {
    pub code: String,
    pub message: String,
}

/// A capability error as a mathematical value.
#[verifier::ext_equal]
pub struct ApiErrorView {
    pub code: Seq<char>,
    pub message: Seq<char>,
}

impl View for ApiError {
    type V = ApiErrorView;

    open spec fn view(&self) -> ApiErrorView {
        ApiErrorView { code: self.code@, message: self.message@ }
    }
}

/// Builds a capability error.
pub fn api_err(code: &str, message: &str) -> (e: ApiError)
    ensures
        e@ == (ApiErrorView { code: code@, message: message@ }),
{
    ApiError { code: code.to_owned(), message: message.to_owned() }
}

/// A portfolio's identifier and display name.
#[derive(Debug, Clone, PartialEq, Eq)]
pub struct PortfolioName {
    pub id: String,
    pub name: String,
}

/// A portfolio name as a mathematical value.
#[verifier::ext_equal]
pub struct PortfolioNameView {
    pub id: Seq<char>,
    pub name: Seq<char>,
}

impl View for PortfolioName {
    type V = PortfolioNameView;

    open spec fn view(&self) -> PortfolioNameView {
        PortfolioNameView { id: self.id@, name: self.name@ }
    }
}

/// The views of a list of portfolio names.
pub open spec fn name_views(names: Seq<PortfolioName>) -> Seq<PortfolioNameView> {
    names.map_values(|n: PortfolioName| n@)
}

/// An event that a plugin emits: a kind and an opaque payload.
#[derive(Debug, Clone, PartialEq, Eq)]
pub struct PluginEvent {
    pub kind: String,
    pub payload: Vec<u8>,
}

/// An event as a mathematical value.
#[verifier::ext_equal]
pub struct EventView {
    pub kind: Seq<char>,
    pub payload: Seq<u8>,
}

impl View for PluginEvent {
    type V = EventView;

    open spec fn view(&self) -> EventView {
        EventView { kind: self.kind@, payload: self.payload@ }
    }
}

/// The views of a list of events.
pub open spec fn event_views(events: Seq<PluginEvent>) -> Seq<EventView> {
    events.map_values(|e: PluginEvent| e@)
}

/// The severity of a log line.
#[derive(Debug, Clone, Copy, PartialEq, Eq, Structural)]
pub enum Level {
    Trace,
    Debug,
    Info,
    Warn,
    Error,
}

/// A copy of a byte vector.
pub fn copy_bytes(v: &[u8]) -> (out: Vec<u8>)
    ensures
        out@ == v@,
{
    let mut out: Vec<u8> = Vec::new();
    let mut i: usize = 0;
    while i < v.len()
        invariant
            i <= v.len(),
            out@ == v@.take(i as int),
        decreases v.len() - i,
    {
        out.push(v[i]);
        i += 1;
    }
    assert(v@.take(v@.len() as int) =~= v@);
    out
}

/// The UTF-8 bytes of a text.
pub fn text_bytes(s: &str) -> (out: Vec<u8>)
    ensures
        out@ == vstd::utf8::encode_utf8(s@),
{
    copy_bytes(s.as_bytes())
}

} // verus!
