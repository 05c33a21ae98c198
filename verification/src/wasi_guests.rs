//! The store state for guests that bring a language runtime, and the check on
//! their outbound HTTP.
//!
//! Every outbound request of such a guest passes the fetch gate before it is
//! sent. A denied request never reaches the sender, and every denial looks the
//! same to the guest.
use crate::capstone::{CapstoneHarness, CapstoneView};
use crate::fetch_gate::{check_request, gate, FetchDenial};
use crate::storage_events::StorageEventsView;
use crate::wasi_http::{ErrorCode, ErrorCodeView};
use vstd::prelude::*;

verus! {

/// `hyper`'s URI type.
#[verifier::external_type_specification]
#[verifier::external_body]
pub struct ExUri(hyper::Uri);

/// The scheme of a URI, where it has one.
pub uninterp spec fn uri_scheme(uri: hyper::Uri) -> Option<Seq<char>>;

/// The host of a URI, where it has one.
pub uninterp spec fn uri_host(uri: hyper::Uri) -> Option<Seq<char>>;

/// `Uri::scheme_str`: the scheme of a URI, where it has one.
#[verifier::external_body]
fn scheme_of(uri: &hyper::Uri) -> (s: Option<String>)
    ensures
        crate::wasi_http::text_view(s) == uri_scheme(*uri),
{
    uri.scheme_str().map(|s| s.to_string())
}

/// `Uri::host`: the host of a URI, where it has one.
#[verifier::external_body]
fn host_of(uri: &hyper::Uri) -> (s: Option<String>)
    ensures
        crate::wasi_http::text_view(s) == uri_host(*uri),
{
    uri.host().map(|s| s.to_string())
}

/// The fetch decision on a URI: a missing scheme or host counts as empty.
pub open spec fn uri_gate(uri: hyper::Uri, allowlist: Seq<String>) -> Result<(), FetchDenial> {
    parts_gate(uri_scheme(uri), uri_host(uri), allowlist)
}

/// The fetch decision on a scheme and a host, where a missing one counts as
/// empty.
pub open spec fn parts_gate(
    scheme: Option<Seq<char>>,
    host: Option<Seq<char>>,
    allowlist: Seq<String>,
) -> Result<(), FetchDenial> {
    gate(
        match scheme {
            Some(s) => s,
            None => ""@,
        },
        match host {
            Some(h) => h,
            None => ""@,
        },
        allowlist,
    )
}

/// Every denial is the same error to the guest, so that it cannot tell an
/// allowlist miss from a refused address.
fn denial_to_error(denial: FetchDenial) -> (e: ErrorCode)
    ensures
        e@ == ErrorCodeView::HttpRequestDenied,
{
    ErrorCode::HttpRequestDenied
}

/// The sender that performs the real request.
#[derive(Debug, Clone, Copy, PartialEq, Eq, Structural)]
pub struct DefaultSender;

/// Outbound HTTP hooks behind the fetch gate. `S` performs the request.
pub struct GatedHttpHooks<S> {
    allowlist: Vec<String>,
    send: S,
}

impl<S> GatedHttpHooks<S> {
    /// The plugin's allowed origins.
    pub closed spec fn origins(&self) -> Seq<String> {
        self.allowlist@
    }

    /// The sender that a request is handed to once it is let through.
    pub closed spec fn sender(&self) -> S {
        self.send
    }

    /// Hooks with a given sender. The fetch decision still comes first.
    pub fn with_sender(allowlist: Vec<String>, send: S) -> (hooks: GatedHttpHooks<S>)
        ensures
            hooks.origins() == allowlist@,
            hooks.sender() == send,
    {
        GatedHttpHooks { allowlist, send }
    }

    /// The fetch decision on the scheme and the host of a request.
    pub fn let_through(&self, scheme: Option<&str>, host: Option<&str>) -> (r: Result<(), ErrorCode>)
        ensures
            ({
                let decided = parts_gate(
                    match scheme {
                        Some(s) => Some(s@),
                        None => None,
                    },
                    match host {
                        Some(h) => Some(h@),
                        None => None,
                    },
                    self.origins(),
                );
                &&& r is Ok <==> decided is Ok
                &&& r matches Err(e) ==> e@ == ErrorCodeView::HttpRequestDenied
            }),
    {
        let scheme = match scheme {
            Some(s) => s,
            None => "",
        };
        let host = match host {
            Some(h) => h,
            None => "",
        };
        match check_request(scheme, host, self.allowlist.as_slice()) {
            Ok(_) => Ok(()),
            Err(denial) => Err(denial_to_error(denial)),
        }
    }

    /// Decides on an outbound request: hands out the sender where the allowlist lets
    /// the request pass, and the denial where it does not.
    pub fn send_request(&mut self, uri: &hyper::Uri) -> (r: Result<&mut S, ErrorCode>)
        ensures
            r is Ok <==> uri_gate(*uri, old(self).origins()) is Ok,
            match r {
                Ok(send) => *send == old(self).sender() && final(self).sender() == *final(send)
                    && final(self).origins() == old(self).origins(),
                Err(e) => e@ == ErrorCodeView::HttpRequestDenied && *final(self) == *old(self),
            },
    {
        let scheme = scheme_of(uri);
        let host = host_of(uri);
        let decided = self.let_through(
            match &scheme {
                Some(s) => Some(s.as_str()),
                None => None,
            },
            match &host {
                Some(h) => Some(h.as_str()),
                None => None,
            },
        );
        match decided {
            Ok(_) => Ok(&mut self.send),
            Err(e) => Err(e),
        }
    }
}

impl GatedHttpHooks<DefaultSender> {
    /// Hooks with the real sender.
    pub fn new(allowlist: Vec<String>) -> (hooks: GatedHttpHooks<DefaultSender>)
        ensures
            hooks.origins() == allowlist@,
            hooks.sender() == DefaultSender,
    {
        GatedHttpHooks { allowlist, send: DefaultSender }
    }
}

/// The store state of such a guest: the gated HTTP hooks and the capability
/// host.
pub struct GoGuestState<S> {
    pub http_hooks: GatedHttpHooks<S>,
    pub harness: CapstoneHarness,
}

/// The state of a fresh capability host.
pub open spec fn fresh_harness(granted: bool) -> CapstoneView {
    CapstoneView {
        granted,
        store: StorageEventsView { granted, kv: Map::empty(), events: seq![] },
        logs: seq![],
    }
}

impl<S> GoGuestState<S> {
    /// A state with the given grant, origins and sender.
    pub fn with_origins_and_sender(granted: bool, allowlist: Vec<String>, send: S) -> (state:
        GoGuestState<S>)
        ensures
            state.http_hooks.origins() == allowlist@,
            state.http_hooks.sender() == send,
            state.harness.valid(),
            state.harness@ == fresh_harness(granted),
    {
        GoGuestState {
            http_hooks: GatedHttpHooks::with_sender(allowlist, send),
            harness: CapstoneHarness::new(granted),
        }
    }
}

impl GoGuestState<DefaultSender> {
    /// A state with the given grant and no allowed origins.
    pub fn new(granted: bool) -> (state: GoGuestState<DefaultSender>)
        ensures
            state.http_hooks.origins() == Seq::<String>::empty(),
            state.http_hooks.sender() == DefaultSender,
            state.harness.valid(),
            state.harness@ == fresh_harness(granted),
    {
        GoGuestState::<DefaultSender>::with_origins(granted, Vec::new())
    }

    /// A state with the given grant and allowed origins.
    pub fn with_origins(granted: bool, allowlist: Vec<String>) -> (state: GoGuestState<
        DefaultSender,
    >)
        ensures
            state.http_hooks.origins() == allowlist@,
            state.http_hooks.sender() == DefaultSender,
            state.harness.valid(),
            state.harness@ == fresh_harness(granted),
    {
        GoGuestState {
            http_hooks: GatedHttpHooks::<DefaultSender>::new(allowlist),
            harness: CapstoneHarness::new(granted),
        }
    }
}

/// Without allowed origins no request passes.
pub proof fn law_no_origins_no_requests(uri: hyper::Uri)
    ensures
        uri_gate(uri, Seq::<String>::empty()) is Err,
{
}

/// The decision on a request is that on its scheme and host, where a missing one
/// counts as empty; every denial is the same error to the guest.
pub proof fn law_hooks_follow_the_decision<S>(
    hooks: &GatedHttpHooks<S>,
    scheme: &str,
    host: &str,
    r: Result<(), ErrorCode>,
)
    requires
        call_ensures(GatedHttpHooks::<S>::let_through, (hooks, Some(scheme), Some(host)), r),
    ensures
        r is Ok <==> gate(scheme@, host@, hooks.origins()) is Ok,
        r matches Err(e) ==> e@ is HttpRequestDenied,
{
}

/// A missing scheme is no `https`, so the request is refused; a missing host counts
/// as the empty name.
pub proof fn law_missing_parts_count_as_empty(
    uri: hyper::Uri,
    scheme: Seq<char>,
    host: Option<Seq<char>>,
    allowlist: Seq<String>,
)
    ensures
        parts_gate(None, host, allowlist) is Err,
        parts_gate(Some(scheme), None, allowlist) == gate(scheme, seq![], allowlist),
        host matches Some(h) ==> parts_gate(Some(scheme), host, allowlist) == gate(
            scheme,
            h,
            allowlist,
        ),
        uri_gate(uri, allowlist) == parts_gate(uri_scheme(uri), uri_host(uri), allowlist),
{
    reveal_strlit("");
    reveal_strlit("https");
    assert(""@ =~= seq![]);
    assert(crate::text::lower(""@).len() == 0);
    assert(crate::text::lower("https"@).len() == 5);
}

/// A fresh capability host holds nothing but its grant, which workspace and storage
/// share.
pub proof fn law_fresh_host_is_empty(granted: bool)
    ensures
        fresh_harness(granted).granted == granted,
        fresh_harness(granted).store.granted == granted,
        fresh_harness(granted).store.kv == Map::<Seq<char>, Seq<u8>>::empty(),
        fresh_harness(granted).store.events.len() == 0,
        fresh_harness(granted).logs.len() == 0,
{
}

} // verus!
