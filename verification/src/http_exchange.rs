//! How a guest's request is answered.
//!
//! Without a transport the host answers in-process with an echo of the request
//! line. With one, the request goes out to the caller (head, body chunks,
//! trailers line, end) and the response is built from the frames that come back.
//!
//! Reading the guest's streams and awaiting the caller is the driver's work. The
//! exchange decides what follows from each event and tells the driver what to do
//! next.
use crate::api::text_bytes;
use crate::fields::{copy_entries, entry_views, FieldView, FieldsData, FieldsView};
use crate::http_head::{
    format_request_head, format_request_options_line, format_request_trailers_line,
    header_lines, malformed_status, options_line, parse_response_head, request_head, request_trailers_line,
    response_head, ResponseHeadView,
};
use crate::p3::P3sEventView;
use crate::text::{decode_lossy, utf8_lossy};
use crate::wasi_http::{
    method_str, text_view, ErrorCode, ErrorCodeView, HttpHostView, RequestView, ResponseData,
    ResponseView, Scheme, SchemeView, TransportView, WasiHttpHost,
};
use vstd::prelude::*;
use vstd::utf8::encode_utf8;

verus! {

/// How many times the wait for the request's trailers yields before it gives up.
pub const YIELD_BUDGET: usize = 64;

/// What the request's trailers future gave.
#[derive(Debug, Clone, Copy, PartialEq, Eq, Structural)]
pub enum TrailersValue {
    /// The future was dropped without a value.
    Canceled,
    /// The guest reported an error.
    Failed,
    /// The guest has no trailers.
    Absent,
    /// The number of the trailer fields.
    Fields(u32),
}

/// Where an exchange stands.
pub enum ExchangeState<F, I> {
    /// The request body is being forwarded.
    Body { trailers: Option<F>, inbound: Option<I> },
    /// The request trailers are awaited, for `remaining` more yields.
    Trailers { remaining: usize, inbound: Option<I> },
    /// The head of the response is awaited.
    Head,
    /// The response's body and trailers are being made.
    Building { status_code: u16, headers: u32 },
    /// The exchange is over.
    Over,
}

/// What happened.
pub enum HttpEvent<B, F> {
    /// The guest wrote body bytes.
    BodyChunk(Vec<u8>),
    /// The guest closed the body.
    BodyEnd,
    /// A stream could not be read; the text explains.
    PipeFailed(String),
    /// The trailers future was polled: a value, or still pending.
    TrailersPolled(Option<TrailersValue>),
    /// The caller's next frame, or the end of its stream.
    Frame(Option<Vec<u8>>),
    /// The response's body and trailers were made.
    Minted { body: B, trailers: F },
    /// They could not be made; the text explains.
    MintFailed(String),
}

/// An event as a mathematical value.
pub enum HttpEventView<B, F> {
    BodyChunk(Seq<u8>),
    BodyEnd,
    PipeFailed(Seq<char>),
    TrailersPolled(Option<TrailersValue>),
    Frame(Option<Seq<u8>>),
    Minted { body: B, trailers: F },
    MintFailed(Seq<char>),
}

/// What the driver does next.
pub enum HttpAction<B, F, I> {
    /// Read the body; report each chunk and then the end.
    DrainBody(B),
    /// Read the next body chunk.
    NextChunk,
    /// Poll the trailers future.
    PollTrailers(F),
    /// Yield once, then poll the trailers future again.
    Yield,
    /// Await the next frame of the caller.
    AwaitFrame(I),
    /// Make the response's body, from these bytes or from the caller's remaining
    /// frames, and its trailers future, from these fields or none.
    Mint { body: Option<Vec<u8>>, trailers: Option<u32> },
    /// The response is ready.
    Respond(u32),
    /// The request failed.
    Fail(ErrorCode),
    /// Nothing: the event does not belong to this state.
    Ignore,
}

/// An action as a mathematical value.
pub enum HttpActionView<B, F, I> {
    DrainBody(B),
    NextChunk,
    PollTrailers(F),
    Yield,
    AwaitFrame(I),
    Mint { body: Option<Seq<u8>>, trailers: Option<u32> },
    Respond(u32),
    Fail(ErrorCodeView),
    Ignore,
}

/// The view of optional bytes.
pub open spec fn bytes_view(b: Option<Vec<u8>>) -> Option<Seq<u8>> {
    match b {
        Some(v) => Some(v@),
        None => None,
    }
}

impl<B, F> View for HttpEvent<B, F> {
    type V = HttpEventView<B, F>;

    open spec fn view(&self) -> HttpEventView<B, F> {
        match self {
            HttpEvent::BodyChunk(c) => HttpEventView::BodyChunk(c@),
            HttpEvent::BodyEnd => HttpEventView::BodyEnd,
            HttpEvent::PipeFailed(m) => HttpEventView::PipeFailed(m@),
            HttpEvent::TrailersPolled(v) => HttpEventView::TrailersPolled(*v),
            HttpEvent::Frame(f) => HttpEventView::Frame(bytes_view(*f)),
            HttpEvent::Minted { body, trailers } => HttpEventView::Minted {
                body: *body,
                trailers: *trailers,
            },
            HttpEvent::MintFailed(m) => HttpEventView::MintFailed(m@),
        }
    }
}

impl<B, F, I> View for HttpAction<B, F, I> {
    type V = HttpActionView<B, F, I>;

    open spec fn view(&self) -> HttpActionView<B, F, I> {
        match self {
            HttpAction::DrainBody(b) => HttpActionView::DrainBody(*b),
            HttpAction::NextChunk => HttpActionView::NextChunk,
            HttpAction::PollTrailers(f) => HttpActionView::PollTrailers(*f),
            HttpAction::Yield => HttpActionView::Yield,
            HttpAction::AwaitFrame(i) => HttpActionView::AwaitFrame(*i),
            HttpAction::Mint { body, trailers } => HttpActionView::Mint {
                body: bytes_view(*body),
                trailers: *trailers,
            },
            HttpAction::Respond(rep) => HttpActionView::Respond(*rep),
            HttpAction::Fail(e) => HttpActionView::Fail(e@),
            HttpAction::Ignore => HttpActionView::Ignore,
        }
    }
}

/// The host state, the exchange state and the action that follow.
#[verifier::reject_recursive_types(B)]
#[verifier::reject_recursive_types(F)]
pub struct Outcome<B, F, I> {
    pub host: HttpHostView<B, F, I>,
    pub state: ExchangeState<F, I>,
    pub action: HttpActionView<B, F, I>,
}

/// A host failure with an explanation.
pub open spec fn internal(message: Seq<char>) -> ErrorCodeView {
    ErrorCodeView::InternalError(Some(message))
}

/// The exchange is over with an error.
pub open spec fn failed<B, F, I>(host: HttpHostView<B, F, I>, e: ErrorCodeView) -> Outcome<
    B,
    F,
    I,
> {
    Outcome { host, state: ExchangeState::Over, action: HttpActionView::Fail(e) }
}

/// The text, or a default where there is none.
pub open spec fn text_or(s: Option<Seq<char>>, default: Seq<char>) -> Seq<char> {
    match s {
        Some(t) => t,
        None => default,
    }
}

/// The scheme in a request head: `https` where none is set.
pub open spec fn scheme_text(s: Option<SchemeView>) -> Seq<char> {
    match s {
        Some(SchemeView::Http) => "http"@,
        Some(SchemeView::Https) => "https"@,
        Some(SchemeView::Other(t)) => t,
        None => "https"@,
    }
}

/// The body of the in-process answer: the method, the authority and the path.
pub open spec fn echo_text<B, F>(q: RequestView<B, F>) -> Seq<char> {
    q.method.name() + " "@ + text_or(q.authority, ""@) + text_or(q.path_with_query, "/"@)
}

/// The head with which a request goes out.
pub open spec fn head_text<B, F, I>(
    host: HttpHostView<B, F, I>,
    q: RequestView<B, F>,
) -> Seq<char> {
    request_head(
        q.method.name(),
        scheme_text(q.scheme),
        text_or(q.authority, ""@),
        text_or(q.path_with_query, "/"@),
        host.entries_of(q.headers),
        match q.options {
            Some(rep) => match host.options.lookup(rep) {
                Some(o) => options_line(o),
                None => None,
            },
            None => None,
        },
    )
}

/// The header field of the in-process answer.
pub open spec fn echo_header() -> FieldView {
    ("x-hellohq"@, encode_utf8("ok"@))
}

/// What follows from a request that is answered in-process.
pub open spec fn echo_outcome<B, F, I>(host: HttpHostView<B, F, I>, request: u32) -> Outcome<
    B,
    F,
    I,
> {
    match host.requests.lookup(request) {
        None => failed(host, internal("wasi:http handler: unknown request resource"@)),
        Some(q) => Outcome {
            host: HttpHostView {
                fields: host.fields.after_insert(
                    FieldsView { entries: seq![echo_header()], immutable: false },
                ),
                ..host
            },
            state: ExchangeState::Building { status_code: 200, headers: host.fields.next },
            action: HttpActionView::Mint {
                body: Some(encode_utf8(echo_text(q))),
                trailers: None,
            },
        },
    }
}

/// The host with one more outbound event, where it has a transport.
pub open spec fn with_out<B, F, I>(
    host: HttpHostView<B, F, I>,
    event: P3sEventView,
) -> HttpHostView<B, F, I> {
    match host.transport {
        Some(t) => HttpHostView {
            transport: Some(TransportView { out: t.out.push(event), ..t }),
            ..host
        },
        None => host,
    }
}

/// The host after taking a request's body and trailers.
pub open spec fn consumed<B, F, I>(
    host: HttpHostView<B, F, I>,
    request: u32,
    q: RequestView<B, F>,
) -> HttpHostView<B, F, I> {
    host.with_request(request, RequestView { body: None, trailers: None, ..q })
}

/// What follows once the request is fully forwarded: the outbound stream ends
/// and the caller's head is awaited.
pub open spec fn await_head<B, F, I>(
    host: HttpHostView<B, F, I>,
    inbound: Option<I>,
) -> Outcome<B, F, I> {
    let ended = with_out(host, P3sEventView::OutEnd);
    match inbound {
        Some(i) => Outcome {
            host: ended,
            state: ExchangeState::Head,
            action: HttpActionView::AwaitFrame(i),
        },
        None => failed(ended, internal("wasi:http handler: inbound stream already consumed"@)),
    }
}

/// What follows once the body is forwarded: the trailers are polled, if any.
pub open spec fn after_body<B, F, I>(
    host: HttpHostView<B, F, I>,
    trailers: Option<F>,
    inbound: Option<I>,
) -> Outcome<B, F, I> {
    match trailers {
        Some(f) => Outcome {
            host,
            state: ExchangeState::Trailers { remaining: YIELD_BUDGET, inbound },
            action: HttpActionView::PollTrailers(f),
        },
        None => await_head(host, inbound),
    }
}

/// What follows from a request that goes out over the transport.
pub open spec fn transport_outcome<B, F, I>(host: HttpHostView<B, F, I>, request: u32) -> Outcome<
    B,
    F,
    I,
> {
    match host.requests.lookup(request) {
        None => failed(host, internal("wasi:http handler: unknown request resource"@)),
        Some(q) => {
            let taken = consumed(host, request, q);
            match host.transport {
                None => failed(taken, internal("wasi:http handler: transport missing"@)),
                Some(t) => {
                    let sent = HttpHostView {
                        transport: Some(
                            TransportView {
                                out: t.out.push(
                                    P3sEventView::Out(encode_utf8(head_text(host, q))),
                                ),
                                inbound: None,
                            },
                        ),
                        ..taken
                    };
                    match q.body {
                        Some(body) => Outcome {
                            host: sent,
                            state: ExchangeState::Body {
                                trailers: q.trailers,
                                inbound: t.inbound,
                            },
                            action: HttpActionView::DrainBody(body),
                        },
                        None => after_body(sent, q.trailers, t.inbound),
                    }
                },
            }
        },
    }
}

/// What follows from a request.
pub open spec fn handle_outcome<B, F, I>(host: HttpHostView<B, F, I>, request: u32) -> Outcome<
    B,
    F,
    I,
> {
    if host.transport is Some {
        transport_outcome(host, request)
    } else {
        echo_outcome(host, request)
    }
}

/// The host after forwarding the request's trailers: one more outbound frame
/// where the trailer fields exist and are not empty.
pub open spec fn with_trailers_line<B, F, I>(
    host: HttpHostView<B, F, I>,
    value: TrailersValue,
) -> HttpHostView<B, F, I> {
    match value {
        TrailersValue::Fields(rep) => match request_trailers_line(host.entries_of(rep)) {
            Some(line) => with_out(host, P3sEventView::Out(encode_utf8(line))),
            None => host,
        },
        _ => host,
    }
}

/// The host after taking in the head of a response: its headers, and its
/// trailers where it reports any, are new fields.
pub open spec fn with_response_fields<B, F, I>(
    host: HttpHostView<B, F, I>,
    head: ResponseHeadView,
) -> HttpHostView<B, F, I> {
    let headers = host.fields.after_insert(
        FieldsView { entries: head.headers, immutable: false },
    );
    HttpHostView {
        fields: match head.trailers {
            Some(entries) => headers.after_insert(FieldsView { entries, immutable: true }),
            None => headers,
        },
        ..host
    }
}

/// What follows from a frame of the caller while its head is awaited.
pub open spec fn frame_outcome<B, F, I>(
    host: HttpHostView<B, F, I>,
    frame: Option<Seq<u8>>,
) -> Outcome<B, F, I> {
    match frame {
        None => failed(
            host,
            internal("wasi:http handler: caller closed inbound before sending a head"@),
        ),
        Some(bytes) => match response_head(utf8_lossy(bytes)) {
            None => failed(host, malformed_status(utf8_lossy(bytes))),
            Some(head) => Outcome {
                host: with_response_fields(host, head),
                state: ExchangeState::Building {
                    status_code: head.status_code,
                    headers: host.fields.next,
                },
                action: HttpActionView::Mint {
                    body: None,
                    trailers: match head.trailers {
                        Some(_) => Some((host.fields.next + 1) as u32),
                        None => None,
                    },
                },
            },
        },
    }
}

/// What follows from an event.
pub open spec fn step_outcome<B, F, I>(
    host: HttpHostView<B, F, I>,
    state: ExchangeState<F, I>,
    event: HttpEventView<B, F>,
) -> Outcome<B, F, I> {
    match (state, event) {
        (ExchangeState::Body { .. }, HttpEventView::BodyChunk(chunk)) => Outcome {
            host: if chunk.len() == 0 {
                host
            } else {
                with_out(host, P3sEventView::Out(chunk))
            },
            state,
            action: HttpActionView::NextChunk,
        },
        (ExchangeState::Body { trailers, inbound }, HttpEventView::BodyEnd) => after_body(
            host,
            trailers,
            inbound,
        ),
        (ExchangeState::Body { .. }, HttpEventView::PipeFailed(m)) => failed(host, internal(m)),
        (ExchangeState::Trailers { .. }, HttpEventView::PipeFailed(m)) => failed(host, internal(m)),
        (
            ExchangeState::Trailers { remaining, inbound },
            HttpEventView::TrailersPolled(polled),
        ) => match polled {
            Some(value) => await_head(with_trailers_line(host, value), inbound),
            None => if remaining == 0 {
                await_head(host, inbound)
            } else {
                Outcome {
                    host,
                    state: ExchangeState::Trailers { remaining: (remaining - 1) as usize, inbound },
                    action: HttpActionView::Yield,
                }
            },
        },
        (ExchangeState::Head, HttpEventView::Frame(frame)) => frame_outcome(host, frame),
        (
            ExchangeState::Building { status_code, headers },
            HttpEventView::Minted { body, trailers },
        ) => Outcome {
            host: HttpHostView {
                responses: host.responses.after_insert(
                    ResponseView {
                        status_code,
                        headers,
                        body: Some(body),
                        trailers: Some(trailers),
                    },
                ),
                ..host
            },
            state: ExchangeState::Over,
            action: HttpActionView::Respond(host.responses.next),
        },
        (ExchangeState::Building { .. }, HttpEventView::MintFailed(m)) => failed(host, internal(m)),
        _ => Outcome { host, state, action: HttpActionView::Ignore },
    }
}

/// A host failure with an explanation.
fn internal_error(message: &str) -> (e: ErrorCode)
    ensures
        e@ == internal(message@),
{
    ErrorCode::InternalError(Some(message.to_owned()))
}

/// The scheme in a request head.
pub(crate) fn scheme_str(s: &Option<Scheme>) -> (t: &str)
    ensures
        t@ == scheme_text(crate::wasi_http::scheme_view(*s)),
{
    match s {
        Some(Scheme::Http) => "http",
        Some(Scheme::Https) => "https",
        Some(Scheme::Other(t)) => t.as_str(),
        None => "https",
    }
}

/// The text, or a default where there is none.
fn str_or<'a>(s: &'a Option<String>, default: &'a str) -> (t: &'a str)
    ensures
        t@ == text_or(text_view(*s), default@),
{
    match s {
        Some(t) => t.as_str(),
        None => default,
    }
}

impl<B, F, I> WasiHttpHost<B, F, I> {
    /// Emits an outbound chunk, where there is a transport.
    fn out_chunk(&mut self, chunk: Vec<u8>)
        ensures
            final(self)@ == with_out(old(self)@, P3sEventView::Out(chunk@)),
    {
        if let Some(t) = self.transport.as_mut() {
            t.out.chunk(chunk);
        }
    }

    /// Ends the outbound stream, where there is a transport.
    fn out_end(&mut self)
        ensures
            final(self)@ == with_out(old(self)@, P3sEventView::OutEnd),
    {
        if let Some(t) = self.transport.as_mut() {
            t.out.end();
        }
    }

    /// Ends the outbound stream and goes on to the caller's head.
    fn finish_request(&mut self, inbound: Option<I>) -> (r: (
        ExchangeState<F, I>,
        HttpAction<B, F, I>,
    ))
        ensures
            ({
                let o = await_head(old(self)@, inbound);
                final(self)@ == o.host && r.0 == o.state && r.1@ == o.action
            }),
    {
        self.out_end();
        match inbound {
            Some(i) => (ExchangeState::Head, HttpAction::AwaitFrame(i)),
            None => (
                ExchangeState::Over,
                HttpAction::Fail(
                    internal_error("wasi:http handler: inbound stream already consumed"),
                ),
            ),
        }
    }

    /// Goes on to the request's trailers, if any.
    fn finish_body(&mut self, trailers: Option<F>, inbound: Option<I>) -> (r: (
        ExchangeState<F, I>,
        HttpAction<B, F, I>,
    ))
        ensures
            ({
                let o = after_body(old(self)@, trailers, inbound);
                final(self)@ == o.host && r.0 == o.state && r.1@ == o.action
            }),
    {
        match trailers {
            Some(f) => (
                ExchangeState::Trailers { remaining: YIELD_BUDGET, inbound },
                HttpAction::PollTrailers(f),
            ),
            None => self.finish_request(inbound),
        }
    }

    /// Forwards the request's trailers as a reserved line.
    fn forward_trailers(&mut self, value: TrailersValue)
        ensures
            final(self)@ == with_trailers_line(old(self)@, value),
    {
        if let TrailersValue::Fields(rep) = value {
            let line = match self.fields.get(rep) {
                Some(f) => format_request_trailers_line(f.entries.as_slice()),
                None => None,
            };
            if let Some(l) = line {
                self.out_chunk(text_bytes(l.as_str()));
            }
        }
    }

    /// Answers a request in-process.
    fn handle_echo(&mut self, request: u32) -> (r: (ExchangeState<F, I>, HttpAction<B, F, I>))
        requires
            old(self)@.fields.has_room(1),
        ensures
            ({
                let o = echo_outcome(old(self)@, request);
                final(self)@ == o.host && r.0 == o.state && r.1@ == o.action
            }),
    {
        let body = match self.requests.get(request) {
            None => {
                return (
                    ExchangeState::Over,
                    HttpAction::Fail(
                        internal_error("wasi:http handler: unknown request resource"),
                    ),
                );
            },
            Some(q) => {
                let summary = String::from_str(method_str(&q.method)).concat(" ").concat(
                    str_or(&q.authority, ""),
                ).concat(str_or(&q.path_with_query, "/"));
                text_bytes(summary.as_str())
            },
        };
        let mut entries: Vec<(String, Vec<u8>)> = Vec::new();
        entries.push(("x-hellohq".to_owned(), text_bytes("ok")));
        assert(entry_views(entries@) =~= seq![echo_header()]);
        let headers = self.fields.insert(FieldsData { entries, immutable: false });
        (
            ExchangeState::Building { status_code: 200, headers },
            HttpAction::Mint { body: Some(body), trailers: None },
        )
    }

    /// The head with which a request goes out.
    fn head_of(&self, request: u32) -> (head: Option<String>)
        ensures
            match head {
                Some(h) => self@.requests.lookup(request) is Some && h@ == head_text(
                    self@,
                    self@.requests.lookup(request)->0,
                ),
                None => self@.requests.lookup(request) is None,
            },
    {
        let q = match self.requests.get(request) {
            None => {
                return None;
            },
            Some(q) => q,
        };
        let entries = match self.fields.get(q.headers) {
            Some(f) => copy_entries(f.entries.as_slice()),
            None => {
                let none: Vec<(String, Vec<u8>)> = Vec::new();
                assert(entry_views(none@) =~= seq![]);
                none
            },
        };
        let options = match q.options {
            Some(rep) => match self.options.get(rep) {
                Some(o) => format_request_options_line(o),
                None => None,
            },
            None => None,
        };
        Some(
            format_request_head(
                method_str(&q.method),
                scheme_str(&q.scheme),
                str_or(&q.authority, ""),
                str_or(&q.path_with_query, "/"),
                entries.as_slice(),
                options,
            ),
        )
    }

    /// Sends a request out over the transport: its head at once, then its body
    /// and trailers as the driver reads them.
    pub fn handle_via_transport(&mut self, request: u32) -> (r: (
        ExchangeState<F, I>,
        HttpAction<B, F, I>,
    ))
        ensures
            ({
                let o = transport_outcome(old(self)@, request);
                final(self)@ == o.host && r.0 == o.state && r.1@ == o.action
            }),
    {
        let head = match self.head_of(request) {
            Some(h) => h,
            None => {
                return (
                    ExchangeState::Over,
                    HttpAction::Fail(
                        internal_error("wasi:http handler: unknown request resource"),
                    ),
                );
            },
        };
        let (body, trailers) = self.request_consume_body(request);
        let inbound = match self.transport.as_mut() {
            None => {
                return (
                    ExchangeState::Over,
                    HttpAction::Fail(internal_error("wasi:http handler: transport missing")),
                );
            },
            Some(t) => {
                t.out.chunk(text_bytes(head.as_str()));
                t.inbound.take()
            },
        };
        match body {
            Some(b) => (ExchangeState::Body { trailers, inbound }, HttpAction::DrainBody(b)),
            None => self.finish_body(trailers, inbound),
        }
    }

    /// Begins to answer a request: over the transport where there is one, else
    /// in-process.
    pub fn handle(&mut self, request: u32) -> (r: (ExchangeState<F, I>, HttpAction<B, F, I>))
        requires
            old(self)@.transport is None ==> old(self)@.fields.has_room(1),
        ensures
            ({
                let o = handle_outcome(old(self)@, request);
                final(self)@ == o.host && r.0 == o.state && r.1@ == o.action
            }),
    {
        if self.has_transport() {
            self.handle_via_transport(request)
        } else {
            self.handle_echo(request)
        }
    }

    /// Takes in the caller's head.
    fn handle_frame(&mut self, frame: Option<Vec<u8>>) -> (r: (
        ExchangeState<F, I>,
        HttpAction<B, F, I>,
    ))
        requires
            frame is Some ==> old(self)@.fields.has_room(2),
        ensures
            ({
                let o = frame_outcome(old(self)@, bytes_view(frame));
                final(self)@ == o.host && r.0 == o.state && r.1@ == o.action
            }),
    {
        let bytes = match frame {
            None => {
                return (
                    ExchangeState::Over,
                    HttpAction::Fail(
                        internal_error(
                            "wasi:http handler: caller closed inbound before sending a head",
                        ),
                    ),
                );
            },
            Some(b) => b,
        };
        let text = decode_lossy(bytes.as_slice());
        let head = match parse_response_head(text.as_str()) {
            Ok(h) => h,
            Err(e) => {
                return (ExchangeState::Over, HttpAction::Fail(e));
            },
        };
        let headers = self.fields.insert(FieldsData { entries: head.headers, immutable: false });
        let trailers: Option<u32> = match head.trailers {
            Some(entries) => Some(self.fields.insert(FieldsData { entries, immutable: true })),
            None => None,
        };
        (
            ExchangeState::Building { status_code: head.status_code, headers },
            HttpAction::Mint { body: None, trailers },
        )
    }

    /// Goes on with an exchange after an event.
    pub fn step(&mut self, state: ExchangeState<F, I>, event: HttpEvent<B, F>) -> (r: (
        ExchangeState<F, I>,
        HttpAction<B, F, I>,
    ))
        requires
            state is Head && (event matches HttpEvent::Frame(Some(_))) ==> old(
                self,
            )@.fields.has_room(2),
            state is Building && event is Minted ==> old(self)@.responses.has_room(1),
        ensures
            ({
                let o = step_outcome(old(self)@, state, event@);
                final(self)@ == o.host && r.0 == o.state && r.1@ == o.action
            }),
    {
        match (state, event) {
            (ExchangeState::Body { trailers, inbound }, HttpEvent::BodyChunk(chunk)) => {
                if chunk.len() > 0 {
                    self.out_chunk(chunk);
                }
                (ExchangeState::Body { trailers, inbound }, HttpAction::NextChunk)
            },
            (ExchangeState::Body { trailers, inbound }, HttpEvent::BodyEnd) => self.finish_body(
                trailers,
                inbound,
            ),
            (ExchangeState::Body { .. }, HttpEvent::PipeFailed(m)) => (
                ExchangeState::Over,
                HttpAction::Fail(ErrorCode::InternalError(Some(m))),
            ),
            (ExchangeState::Trailers { .. }, HttpEvent::PipeFailed(m)) => (
                ExchangeState::Over,
                HttpAction::Fail(ErrorCode::InternalError(Some(m))),
            ),
            (
                ExchangeState::Trailers { remaining, inbound },
                HttpEvent::TrailersPolled(polled),
            ) => match polled {
                Some(value) => {
                    self.forward_trailers(value);
                    self.finish_request(inbound)
                },
                None => if remaining == 0 {
                    self.finish_request(inbound)
                } else {
                    (
                        ExchangeState::Trailers { remaining: remaining - 1, inbound },
                        HttpAction::Yield,
                    )
                },
            },
            (ExchangeState::Head, HttpEvent::Frame(frame)) => self.handle_frame(frame),
            (
                ExchangeState::Building { status_code, headers },
                HttpEvent::Minted { body, trailers },
            ) => {
                let rep = self.responses.insert(
                    ResponseData {
                        status_code,
                        headers,
                        body: Some(body),
                        trailers: Some(trailers),
                    },
                );
                (ExchangeState::Over, HttpAction::Respond(rep))
            },
            (ExchangeState::Building { .. }, HttpEvent::MintFailed(m)) => (
                ExchangeState::Over,
                HttpAction::Fail(ErrorCode::InternalError(Some(m))),
            ),
            (state, _) => (state, HttpAction::Ignore),
        }
    }
}

// ── Laws ────────────────────────────────────────────────────────────────────

/// The outbound frames for body chunks: one for each chunk that is not empty.
pub open spec fn chunk_frames(chunks: Seq<Seq<u8>>) -> Seq<P3sEventView> {
    chunks.filter_map(
        |c: Seq<u8>|
            if c.len() == 0 {
                None
            } else {
                Some(P3sEventView::Out(c))
            },
    )
}

/// The outbound frame for the request's trailers, if there is one.
pub open spec fn trailers_frames<B, F, I>(
    host: HttpHostView<B, F, I>,
    trailers: Option<F>,
    value: TrailersValue,
) -> Seq<P3sEventView> {
    match (trailers, value) {
        (Some(_), TrailersValue::Fields(rep)) => match request_trailers_line(host.entries_of(rep)) {
            Some(line) => seq![P3sEventView::Out(encode_utf8(line))],
            None => seq![],
        },
        _ => seq![],
    }
}

/// What follows after the body chunks have been forwarded one by one.
pub open spec fn after_chunks<B, F, I>(
    o: Outcome<B, F, I>,
    chunks: Seq<Seq<u8>>,
) -> Outcome<B, F, I>
    decreases chunks.len(),
{
    if chunks.len() == 0 {
        o
    } else {
        let p = after_chunks(o, chunks.drop_last());
        step_outcome(p.host, p.state, HttpEventView::BodyChunk(chunks.last()))
    }
}

/// What follows once a request has been forwarded: its chunks, where it has a
/// body, and the value of its trailers, where it has trailers.
pub open spec fn after_request<B, F, I>(
    o: Outcome<B, F, I>,
    chunks: Seq<Seq<u8>>,
    value: TrailersValue,
) -> Outcome<B, F, I> {
    let p = if o.state is Body {
        let q = after_chunks(o, chunks);
        step_outcome(q.host, q.state, HttpEventView::BodyEnd)
    } else {
        o
    };
    if p.state is Trailers {
        step_outcome(p.host, p.state, HttpEventView::TrailersPolled(Some(value)))
    } else {
        p
    }
}

proof fn lemma_after_chunks<B, F, I>(o: Outcome<B, F, I>, chunks: Seq<Seq<u8>>)
    requires
        o.state is Body,
        o.host.transport is Some,
    ensures
        ({
            let p = after_chunks(o, chunks);
            let t = o.host.transport->0;
            &&& p.state == o.state
            &&& p.host == (HttpHostView {
                transport: Some(TransportView { out: t.out + chunk_frames(chunks), ..t }),
                ..o.host
            })
        }),
    decreases chunks.len(),
{
    let t = o.host.transport->0;
    let p = after_chunks(o, chunks);
    if chunks.len() == 0 {
        assert(t.out + chunk_frames(chunks) =~= t.out);
    } else {
        lemma_after_chunks(o, chunks.drop_last());
        let before = chunk_frames(chunks.drop_last());
        assert(p.host.transport->0.out =~= t.out + chunk_frames(chunks));
    }
}

/// A request goes out as its head, then its body chunks in order, then its
/// trailers line where it has trailers, then the end: nothing else, and the end
/// exactly once.
pub proof fn law_request_frames<B, F, I>(
    host: HttpHostView<B, F, I>,
    request: u32,
    chunks: Seq<Seq<u8>>,
    value: TrailersValue,
)
    requires
        host.transport is Some,
        host.requests.lookup(request) is Some,
    ensures
        ({
            let q = host.requests.lookup(request)->0;
            let t = host.transport->0;
            let end = after_request(handle_outcome(host, request), chunks, value);
            &&& end.host.transport is Some
            &&& end.host.transport->0.out == t.out + seq![
                P3sEventView::Out(encode_utf8(head_text(host, q))),
            ] + (if q.body is Some {
                chunk_frames(chunks)
            } else {
                seq![]
            }) + trailers_frames(host, q.trailers, value) + seq![P3sEventView::OutEnd]
            &&& t.inbound is Some ==> end.state is Head && end.action
                == HttpActionView::<B, F, I>::AwaitFrame(t.inbound->0)
            &&& t.inbound is None ==> end.state is Over && end.action is Fail
        }),
{
    let q = host.requests.lookup(request)->0;
    let t = host.transport->0;
    let o = handle_outcome(host, request);
    let head = P3sEventView::Out(encode_utf8(head_text(host, q)));
    let end = after_request(o, chunks, value);
    let middle = if q.body is Some {
        chunk_frames(chunks)
    } else {
        seq![]
    };
    let last = trailers_frames(host, q.trailers, value);
    if q.body is Some {
        lemma_after_chunks(o, chunks);
    }
    assert(end.host.transport->0.out =~= t.out + seq![head] + middle + last + seq![
        P3sEventView::OutEnd,
    ]);
}

/// What follows after the trailers future was found pending `n` times.
pub open spec fn after_pending<B, F, I>(o: Outcome<B, F, I>, n: nat) -> Outcome<B, F, I>
    decreases n,
{
    if n == 0 {
        o
    } else {
        let p = after_pending(o, (n - 1) as nat);
        step_outcome(p.host, p.state, HttpEventView::TrailersPolled(None))
    }
}

/// The wait for the request's trailers is bounded: a future that stays pending
/// is given up after the budget of yields, and the request then ends.
pub proof fn law_trailers_wait_is_bounded<B, F, I>(
    host: HttpHostView<B, F, I>,
    trailers: F,
    inbound: Option<I>,
    n: nat,
)
    ensures
        ({
            let o = after_body(host, Some(trailers), inbound);
            &&& n <= YIELD_BUDGET ==> after_pending(o, n).state == (ExchangeState::<
                F,
                I,
            >::Trailers { remaining: (YIELD_BUDGET - n) as usize, inbound }) && after_pending(
                o,
                n,
            ).host == host
            &&& n == YIELD_BUDGET + 1 ==> after_pending(o, n) == await_head(host, inbound)
        }),
    decreases n,
{
    if n > 0 {
        law_trailers_wait_is_bounded(host, trailers, inbound, (n - 1) as nat);
    }
}

/// The response has the status, the headers and the trailers that the caller's
/// head reports, and the body and trailers that were made for it.
pub proof fn law_response_follows_the_head<B, F, I>(
    host: HttpHostView<B, F, I>,
    frame: Seq<u8>,
    body: B,
    trailers: F,
)
    requires
        response_head(utf8_lossy(frame)) is Some,
        host.fields.numbered(),
        host.fields.has_room(2),
        host.responses.has_room(1),
    ensures
        ({
            let head = response_head(utf8_lossy(frame))->0;
            let o = step_outcome(
                host,
                ExchangeState::Head,
                HttpEventView::<B, F>::Frame(Some(frame)),
            );
            let end = step_outcome(o.host, o.state, HttpEventView::Minted { body, trailers });
            &&& end.action == HttpActionView::<B, F, I>::Respond(host.responses.next)
            &&& end.host.responses.lookup(host.responses.next) == Some(
                ResponseView {
                    status_code: head.status_code,
                    headers: host.fields.next,
                    body: Some(body),
                    trailers: Some(trailers),
                },
            )
            &&& end.host.entries_of(host.fields.next) == head.headers
            &&& o.action matches HttpActionView::Mint { body: None, trailers: rep }
            &&& rep is Some <==> head.trailers is Some
            &&& rep is Some ==> end.host.fields.lookup(rep->0) == Some(
                FieldsView { entries: head.trailers->0, immutable: true },
            )
        }),
{
}

/// Without a transport a request is answered in-process: status 200, the one
/// header `x-hellohq: ok`, and a body made from the echo of the request line.
pub proof fn law_echo_without_transport<B, F, I>(
    host: HttpHostView<B, F, I>,
    request: u32,
    body: B,
    trailers: F,
)
    requires
        host.transport is None,
        host.requests.lookup(request) is Some,
        host.fields.has_room(1),
        host.responses.has_room(1),
    ensures
        ({
            let q = host.requests.lookup(request)->0;
            let o = handle_outcome(host, request);
            let end = step_outcome(o.host, o.state, HttpEventView::Minted { body, trailers });
            &&& o.action == HttpActionView::<B, F, I>::Mint {
                body: Some(encode_utf8(echo_text(q))),
                trailers: None,
            }
            &&& end.action == HttpActionView::<B, F, I>::Respond(host.responses.next)
            &&& end.host.responses.lookup(host.responses.next) == Some(
                ResponseView {
                    status_code: 200,
                    headers: host.fields.next,
                    body: Some(body),
                    trailers: Some(trailers),
                },
            )
            &&& end.host.entries_of(host.fields.next) == seq![echo_header()]
            &&& end.host.transport is None
        }),
{
}

/// An exchange that is over stays over and changes nothing.
pub proof fn law_over_is_over<B, F, I>(host: HttpHostView<B, F, I>, event: HttpEventView<B, F>)
    ensures
        step_outcome(host, ExchangeState::<F, I>::Over, event).host == host,
        step_outcome(host, ExchangeState::<F, I>::Over, event).state is Over,
        step_outcome(host, ExchangeState::<F, I>::Over, event).action is Ignore,
{
}

/// The head of a request names its scheme as it was set: `http`, `https`, or the
/// scheme's own text, and `https` where none was set. The authority and the path
/// follow, empty and `/` where they were not set, and then the header lines and
/// the options line.
pub proof fn law_head_names_scheme_and_target<B, F, I>(
    host: HttpHostView<B, F, I>,
    q: RequestView<B, F>,
)
    ensures
        ({
            let head = head_text(host, q);
            let method = q.method.name();
            let rest = (match q.authority {
                Some(a) => a,
                None => seq![],
            }) + (match q.path_with_query {
                Some(p) => p,
                None => seq!['/'],
            }) + header_lines(host.entries_of(q.headers)) + (match q.options {
                Some(rep) => match host.options.lookup(rep) {
                    Some(o) => match options_line(o) {
                        Some(line) => "\n"@ + line,
                        None => seq![],
                    },
                    None => seq![],
                },
                None => seq![],
            });
            &&& q.scheme matches Some(SchemeView::Https) ==> head == method + " https://"@ + rest
            &&& q.scheme is None ==> head == method + " https://"@ + rest
            &&& q.scheme matches Some(SchemeView::Http) ==> head == method + " http://"@ + rest
            &&& q.scheme matches Some(SchemeView::Other(s)) ==> head == method + " "@ + s + "://"@
                + rest
        }),
{
    let authority = text_or(q.authority, ""@);
    let path = text_or(q.path_with_query, "/"@);
    let lines = header_lines(host.entries_of(q.headers));
    let options: Option<Seq<char>> = match q.options {
        Some(rep) => match host.options.lookup(rep) {
            Some(o) => options_line(o),
            None => None,
        },
        None => None,
    };
    let tail = match options {
        Some(line) => seq!['\n'] + line,
        None => seq![],
    };
    lemma_request_line(q.method.name(), scheme_text(q.scheme), authority, path, lines, tail);
    assert(""@ =~= seq![] && "/"@ =~= seq!['/'] && "\n"@ =~= seq!['\n']) by {
        reveal_strlit("");
        reveal_strlit("/");
        reveal_strlit("\n");
    }
    assert(" "@ + "https"@ + "://"@ =~= " https://"@) by {
        reveal_strlit(" ");
        reveal_strlit("https");
        reveal_strlit("://");
        reveal_strlit(" https://");
    }
    assert(" "@ + "http"@ + "://"@ =~= " http://"@) by {
        reveal_strlit(" ");
        reveal_strlit("http");
        reveal_strlit("://");
        reveal_strlit(" http://");
    }
}

/// The parts of a request line, bracketed otherwise.
proof fn lemma_request_line(
    method: Seq<char>,
    scheme: Seq<char>,
    authority: Seq<char>,
    path: Seq<char>,
    lines: Seq<char>,
    tail: Seq<char>,
)
    ensures
        method + " "@ + scheme + "://"@ + authority + path + lines + tail == method + (" "@ + scheme
            + "://"@) + (authority + path + lines + tail),
        method + " "@ + scheme + "://"@ + authority + path + lines + tail == method + " "@ + scheme
            + "://"@ + (authority + path + lines + tail),
{
    assert(method + " "@ + scheme + "://"@ + authority + path + lines + tail =~= method + (" "@
        + scheme + "://"@) + (authority + path + lines + tail));
    assert(method + " "@ + scheme + "://"@ + authority + path + lines + tail =~= method + " "@
        + scheme + "://"@ + (authority + path + lines + tail));
}

/// The scheme's text in a head is the one that the guest set.
pub(crate) proof fn law_scheme_is_written_as_set(s: &Option<Scheme>, t: &str)
    requires
        call_ensures(scheme_str, (s,), t),
    ensures
        s is None ==> t@ == "https"@,
        *s matches Some(Scheme::Https) ==> t@ == "https"@,
        *s matches Some(Scheme::Http) ==> t@ == "http"@,
        *s matches Some(Scheme::Other(o)) ==> t@ == o@,
{
}

/// The body chunks of a request go out one by one and in order, and an empty one
/// goes unsent.
pub proof fn law_chunks_go_out_in_order<B, F, I>(
    host: HttpHostView<B, F, I>,
    trailers: Option<F>,
    inbound: Option<I>,
    chunk: Seq<u8>,
    next: Seq<u8>,
)
    requires
        host.transport is Some,
        chunk.len() > 0,
        next.len() > 0,
    ensures
        ({
            let t = host.transport->0;
            let state = ExchangeState::Body { trailers, inbound };
            let one = step_outcome(host, state, HttpEventView::<B, F>::BodyChunk(chunk));
            let two = step_outcome(one.host, one.state, HttpEventView::<B, F>::BodyChunk(next));
            let none = step_outcome(host, state, HttpEventView::<B, F>::BodyChunk(seq![]));
            &&& one.host == (HttpHostView {
                transport: Some(TransportView { out: t.out.push(P3sEventView::Out(chunk)), ..t }),
                ..host
            })
            &&& two.host.transport->0.out == t.out.push(P3sEventView::Out(chunk)).push(
                P3sEventView::Out(next),
            )
            &&& none.host == host
            &&& one.state == state && two.state == state && none.state == state
            &&& one.action is NextChunk && none.action is NextChunk
        }),
{
}

/// The frames of body chunks are those of the chunks before, with one more at
/// the end for a chunk that is not empty.
pub proof fn law_chunk_frames_grow_at_the_end(chunks: Seq<Seq<u8>>, chunk: Seq<u8>)
    ensures
        chunk_frames(seq![]) == Seq::<P3sEventView>::empty(),
        chunk.len() > 0 ==> chunk_frames(chunks.push(chunk)) == chunk_frames(chunks).push(
            P3sEventView::Out(chunk),
        ),
        chunk.len() == 0 ==> chunk_frames(chunks.push(chunk)) == chunk_frames(chunks),
{
    assert(chunks.push(chunk).drop_last() =~= chunks);
    assert(chunk_frames(seq![]) =~= Seq::<P3sEventView>::empty());
    if chunk.len() > 0 {
        assert(chunk_frames(chunks.push(chunk)) =~= chunk_frames(chunks).push(
            P3sEventView::Out(chunk),
        ));
    } else {
        assert(chunk_frames(chunks.push(chunk)) =~= chunk_frames(chunks));
    }
}

/// A trailers future is polled again at most 64 times; found pending once more,
/// it is given up and the request ends.
pub proof fn law_trailers_are_awaited_sixty_four_yields<B, F, I>(
    host: HttpHostView<B, F, I>,
    trailers: F,
    inbound: Option<I>,
    n: nat,
)
    ensures
        ({
            let o = step_outcome(
                host,
                ExchangeState::Body { trailers: Some(trailers), inbound },
                HttpEventView::<B, F>::BodyEnd,
            );
            &&& o.action == HttpActionView::<B, F, I>::PollTrailers(trailers)
            &&& 1 <= n <= 64 ==> after_pending(o, n).action is Yield && after_pending(o, n).host
                == host
            &&& n == 65 && inbound is Some ==> after_pending(o, n).state is Head
        }),
{
    if n <= 65 {
        law_trailers_wait_is_bounded(host, trailers, inbound, n);
        if n > 0 {
            law_trailers_wait_is_bounded(host, trailers, inbound, (n - 1) as nat);
        }
    }
}

/// Every failure of an exchange ends it and tells the guest why.
pub proof fn law_failures_say_why<B, F, I>(
    host: HttpHostView<B, F, I>,
    request: u32,
    frame: Seq<u8>,
    message: Seq<char>,
    remaining: usize,
    trailers: Option<F>,
    inbound: Option<I>,
    status_code: u16,
    headers: u32,
)
    ensures
        host.requests.lookup(request) is None ==> handle_outcome(host, request) == (Outcome {
            host,
            state: ExchangeState::<F, I>::Over,
            action: HttpActionView::<B, F, I>::Fail(
                ErrorCodeView::InternalError(
                    Some("wasi:http handler: unknown request resource"@),
                ),
            ),
        }),
        step_outcome(host, ExchangeState::Head, HttpEventView::Frame(None)) == (Outcome {
            host,
            state: ExchangeState::<F, I>::Over,
            action: HttpActionView::<B, F, I>::Fail(
                ErrorCodeView::InternalError(
                    Some("wasi:http handler: caller closed inbound before sending a head"@),
                ),
            ),
        }),
        await_head::<B, F, I>(host, None).action == HttpActionView::<B, F, I>::Fail(
            ErrorCodeView::InternalError(
                Some("wasi:http handler: inbound stream already consumed"@),
            ),
        ),
        response_head(utf8_lossy(frame)) is None ==> step_outcome(
            host,
            ExchangeState::Head,
            HttpEventView::Frame(Some(frame)),
        ) == (Outcome {
            host,
            state: ExchangeState::<F, I>::Over,
            action: HttpActionView::<B, F, I>::Fail(
                ErrorCodeView::InternalError(
                    Some(
                        "wasi:http handler: malformed response status line "@
                            + crate::http_head::debug_text(
                            crate::text::split(utf8_lossy(frame), '\n')[0],
                        ),
                    ),
                ),
            ),
        }),
        ({
            let fail = Outcome {
                host,
                state: ExchangeState::<F, I>::Over,
                action: HttpActionView::<B, F, I>::Fail(
                    ErrorCodeView::InternalError(Some(message)),
                ),
            };
            &&& step_outcome(
                host,
                ExchangeState::Body { trailers, inbound },
                HttpEventView::PipeFailed(message),
            ) == fail
            &&& step_outcome(
                host,
                ExchangeState::Trailers { remaining, inbound },
                HttpEventView::PipeFailed(message),
            ) == fail
            &&& step_outcome(
                host,
                ExchangeState::Building { status_code, headers },
                HttpEventView::MintFailed(message),
            ) == fail
        }),
{
}

/// The echo of a request is its method, a space, its authority and its path, `/`
/// where it has none.
pub proof fn law_echo_names_method_and_target<B, F>(q: RequestView<B, F>)
    ensures
        echo_text(q) == q.method.name() + " "@ + (match q.authority {
            Some(a) => a,
            None => seq![],
        }) + (match q.path_with_query {
            Some(p) => p,
            None => seq!['/'],
        }),
        echo_header() == ("x-hellohq"@, encode_utf8("ok"@)),
{
    reveal_strlit("");
    reveal_strlit("/");
    assert(""@ =~= seq![]);
    assert("/"@ =~= seq!['/']);
}

/// Handling a request over a transport sends its head first, behind what went out
/// before; without a transport nothing goes out.
pub proof fn law_handling_sends_the_head<B, F, I>(
    h: &mut WasiHttpHost<B, F, I>,
    request: u32,
    r: (ExchangeState<F, I>, HttpAction<B, F, I>),
)
    requires
        call_ensures(WasiHttpHost::<B, F, I>::handle, (h, request), r),
    ensures
        (final(h)@, r.0, r.1@) == ({
            let o = handle_outcome(old(h)@, request);
            (o.host, o.state, o.action)
        }),
        old(h)@.transport is Some && old(h)@.requests.lookup(request) is Some
            ==> final(h)@.transport is Some && final(h)@.transport->0.out.len()
            > old(h)@.transport->0.out.len() && final(h)@.transport->0.out[old(
            h,
        )@.transport->0.out.len() as int] == P3sEventView::Out(
            encode_utf8(head_text(old(h)@, old(h)@.requests.lookup(request)->0)),
        ),
        old(h)@.transport is None ==> final(h)@.transport is None,
{
}

/// A step of an exchange does what follows from its event.
pub proof fn law_step_does_what_follows<B, F, I>(
    h: &mut WasiHttpHost<B, F, I>,
    state: ExchangeState<F, I>,
    event: HttpEvent<B, F>,
    r: (ExchangeState<F, I>, HttpAction<B, F, I>),
)
    requires
        call_ensures(WasiHttpHost::<B, F, I>::step, (h, state, event), r),
    ensures
        (final(h)@, r.0, r.1@) == ({
            let o = step_outcome(old(h)@, state, event@);
            (o.host, o.state, o.action)
        }),
{
}

} // verus!
