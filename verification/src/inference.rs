//! The `inference` capability host: frames a completion request out to the
//! caller and streams the caller's token deltas back.
//!
//! The request is one outbound frame of text. Its first line is
//! `opts: max-tokens={n} temperature={t}`, with `default` where no temperature is
//! set; each message follows as its role, a line break, its content, and a line
//! `---`. Each inbound frame is one token delta in UTF-8.
use crate::api::{api_err, text_bytes, ApiError, ApiErrorView};
use crate::digits::{decimal, decimal_text};
use crate::http_streams::ProduceStep;
use crate::p3::{P3sEventView, P3sOut};
use crate::text::{decode_lossy, utf8_lossy};
use vstd::prelude::*;
use vstd::utf8::encode_utf8;

verus! {

/// One message of a chat.
#[derive(Debug)]
pub struct ChatMessage {
    pub role: String,
    pub content: String,
}

/// The options of a completion. The temperature is carried as the text in which
/// the request states it.
#[derive(Debug)]
pub struct InferenceOpts {
    pub max_tokens: u32,
    pub temperature: Option<String>,
}

/// The streaming channel pair of a completion.
pub struct InferenceTransport<I> {
    /// Carries the request out.
    pub out: P3sOut,
    /// The caller's token stream, until a completion takes it.
    pub inbound: Option<I>,
}

/// The host state behind `inference`. `I` is the inbound side of a transport.
pub struct InferenceHost<I> {
    pub transport: Option<InferenceTransport<I>>,
}

/// A transport as a mathematical value.
#[verifier::ext_equal]
pub struct InferenceTransportView<I> {
    pub out: Seq<P3sEventView>,
    pub inbound: Option<I>,
}

impl<I> InferenceHost<I> {
    /// The transport as a mathematical value.
    pub open spec fn view(&self) -> Option<InferenceTransportView<I>> {
        match self.transport {
            Some(t) => Some(InferenceTransportView { out: t.out@, inbound: t.inbound }),
            None => None,
        }
    }
}

/// One message in a request.
pub open spec fn message_text(m: ChatMessage) -> Seq<char> {
    m.role@ + seq!['\n'] + m.content@ + "\n---\n"@
}

/// The messages of a request, in order.
pub open spec fn messages_text(messages: Seq<ChatMessage>) -> Seq<char>
    decreases messages.len(),
{
    if messages.len() == 0 {
        seq![]
    } else {
        messages_text(messages.drop_last()) + message_text(messages.last())
    }
}

/// The first line of a request.
pub open spec fn opts_line(opts: InferenceOpts) -> Seq<char> {
    "opts: max-tokens="@ + decimal(opts.max_tokens as nat) + " temperature="@ + (
    match opts.temperature {
        Some(t) => t@,
        None => "default"@,
    }) + "\n"@
}

/// The text of a completion request.
pub open spec fn completion_head(messages: Seq<ChatMessage>, opts: InferenceOpts) -> Seq<char> {
    opts_line(opts) + messages_text(messages)
}

/// The error of a completion without a transport.
pub open spec fn transport_missing() -> ApiErrorView {
    ApiErrorView { code: "not-found"@, message: "inference: transport missing"@ }
}

/// The error of a completion whose inbound stream was taken before.
pub open spec fn inbound_consumed() -> ApiErrorView {
    ApiErrorView { code: "not-found"@, message: "inference: inbound stream already consumed"@ }
}

/// Writes the text of a completion request.
pub fn format_completion_head(messages: &[ChatMessage], opts: &InferenceOpts) -> (head: String)
    ensures
        head@ == completion_head(messages@, *opts),
{
    let number = decimal_text(opts.max_tokens as u64);
    let temperature = match &opts.temperature {
        Some(t) => t.clone(),
        None => "default".to_owned(),
    };
    let mut head = String::from_str("opts: max-tokens=").concat(number.as_str()).concat(
        " temperature=",
    ).concat(temperature.as_str()).concat("\n");
    let ghost line = head@;
    let mut i: usize = 0;
    assert(line + messages_text(messages@.take(0)) =~= line);
    while i < messages.len()
        invariant
            i <= messages.len(),
            head@ == line + messages_text(messages@.take(i as int)),
        decreases messages.len() - i,
    {
        let ghost before = head@;
        head.append(messages[i].role.as_str());
        head.push('\n');
        head.append(messages[i].content.as_str());
        head.append("\n---\n");
        proof {
            let m = messages@[i as int];
            let done = messages@.take(i as int);
            assert(head@ =~= before + message_text(m));
            assert(messages@.take(i + 1).drop_last() =~= done);
            assert(messages@.take(i + 1).last() == m);
            assert(before + message_text(m) =~= line + (messages_text(done) + message_text(m)));
        }
        i += 1;
    }
    assert(messages@.take(messages@.len() as int) =~= messages@);
    head
}

impl<I> InferenceHost<I> {
    /// A host without a transport.
    pub fn new() -> (host: InferenceHost<I>)
        ensures
            host@ is None,
    {
        InferenceHost { transport: None }
    }

    /// A host that hands its completions to the caller.
    pub fn with_transport(out: P3sOut, inbound: I) -> (host: InferenceHost<I>)
        ensures
            host@ == Some(InferenceTransportView { out: out@, inbound: Some(inbound) }),
    {
        InferenceHost { transport: Some(InferenceTransport { out, inbound: Some(inbound) }) }
    }

    /// Sends a completion request out and hands over the caller's token stream.
    /// The request goes out even where the stream was taken before.
    pub fn complete(&mut self, messages: Vec<ChatMessage>, opts: InferenceOpts) -> (r: Result<
        I,
        ApiError,
    >)
        ensures
            match old(self)@ {
                None => r is Err && r->Err_0@ == transport_missing() && final(self)@ is None,
                Some(t) => {
                    &&& final(self)@ == Some(
                        InferenceTransportView::<I> {
                            out: t.out.push(
                                P3sEventView::Out(encode_utf8(completion_head(messages@, opts))),
                            ).push(P3sEventView::OutEnd),
                            inbound: None,
                        },
                    )
                    &&& match t.inbound {
                        Some(i) => r is Ok && r->Ok_0 == i,
                        None => r is Err && r->Err_0@ == inbound_consumed(),
                    }
                },
            },
    {
        let inbound = match self.transport.as_mut() {
            None => {
                return Err(api_err("not-found", "inference: transport missing"));
            },
            Some(t) => {
                let head = format_completion_head(messages.as_slice(), &opts);
                t.out.chunk(text_bytes(head.as_str()));
                t.out.end();
                t.inbound.take()
            },
        };
        match inbound {
            Some(i) => Ok(i),
            None => Err(api_err("not-found", "inference: inbound stream already consumed")),
        }
    }
}

/// The error of a token stream that could not be made.
pub fn token_stream_failed(reason: &str) -> (e: ApiError)
    ensures
        e@ == (ApiErrorView {
            code: "not-found"@,
            message: "inference: failed to mint token stream: "@ + reason@,
        }),
{
    ApiError {
        code: "not-found".to_owned(),
        message: String::from_str("inference: failed to mint token stream: ").concat(reason),
    }
}

/// What a poll of the inbound stream means for the guest's token stream: each
/// frame is one token, the end ends it.
pub fn token_step(polled: Option<Option<Vec<u8>>>) -> (step: ProduceStep<String>)
    ensures
        match polled {
            None => step is Wait,
            Some(None) => step is Ended,
            Some(Some(frame)) => step matches ProduceStep::Deliver(token) && token@ == utf8_lossy(
                frame@,
            ),
        },
{
    match polled {
        None => ProduceStep::Wait,
        Some(None) => ProduceStep::Ended,
        Some(Some(frame)) => ProduceStep::Deliver(decode_lossy(frame.as_slice())),
    }
}

// ── Laws ────────────────────────────────────────────────────────────────────

/// A request without messages is the options line alone: the token limit in
/// decimal, and the temperature's own text or `default`.
pub proof fn law_request_starts_with_the_options(opts: InferenceOpts)
    ensures
        completion_head(seq![], opts) == "opts: max-tokens="@ + decimal(opts.max_tokens as nat)
            + " temperature="@ + (match opts.temperature {
            Some(t) => t@,
            None => "default"@,
        }) + "\n"@,
{
    assert(completion_head(seq![], opts) =~= opts_line(opts));
}

/// Each message goes out behind those before it: its role, a line break, its
/// content, and a line `---`.
pub proof fn law_message_goes_out_last(
    messages: Seq<ChatMessage>,
    m: ChatMessage,
    opts: InferenceOpts,
)
    ensures
        completion_head(messages.push(m), opts) == completion_head(messages, opts) + m.role@
            + "\n"@ + m.content@ + "\n---\n"@,
{
    reveal_strlit("\n");
    assert(messages.push(m).drop_last() =~= messages);
    assert(messages.push(m).last() == m);
    assert(completion_head(messages.push(m), opts) =~= completion_head(messages, opts) + m.role@
        + "\n"@ + m.content@ + "\n---\n"@);
}

/// The request of a longer chat starts with that of the shorter one, and goes on
/// with what the later messages add on their own: the chat keeps its order.
pub proof fn law_chat_keeps_its_order(
    a: Seq<ChatMessage>,
    b: Seq<ChatMessage>,
    opts: InferenceOpts,
)
    ensures
        completion_head(a + b, opts) == completion_head(a, opts) + completion_head(b, opts).skip(
            completion_head(seq![], opts).len() as int,
        ),
    decreases b.len(),
{
    let n = completion_head(seq![], opts).len() as int;
    assert(completion_head(seq![], opts) =~= opts_line(opts));
    assert(completion_head(b, opts).skip(n) =~= messages_text(b));
    if b.len() == 0 {
        assert(a + b =~= a);
        assert(completion_head(a, opts) + messages_text(b) =~= completion_head(a, opts));
    } else {
        let c = b.drop_last();
        let m = b.last();
        law_chat_keeps_its_order(a, c, opts);
        assert(completion_head(c, opts).skip(n) =~= messages_text(c));
        assert(a + b =~= (a + c).push(m));
        law_message_goes_out_last(a + c, m, opts);
        assert(messages_text(b) == messages_text(c) + message_text(m));
        reveal_strlit("\n");
        assert(completion_head(a + b, opts) =~= completion_head(a, opts) + messages_text(b));
    }
}

/// What is written out for a chat is its request text.
pub proof fn law_written_request_is_the_text(
    messages: &[ChatMessage],
    opts: &InferenceOpts,
    head: String,
)
    requires
        call_ensures(format_completion_head, (messages, opts), head),
    ensures
        head@ == completion_head(messages@, *opts),
{
}

/// Each inbound frame is one token: delivered where a frame came, the end where
/// the stream ended, a wait where nothing came.
pub proof fn law_each_frame_is_one_token(
    polled: Option<Option<Vec<u8>>>,
    step: ProduceStep<String>,
)
    requires
        call_ensures(token_step, (polled,), step),
    ensures
        step is Wait <==> polled is None,
        step is Ended <==> polled == Some(None::<Vec<u8>>),
        polled matches Some(Some(frame)) ==> step matches ProduceStep::Deliver(token) && token@
            == utf8_lossy(frame@),
{
}

/// A completion without a transport, or after its stream was taken, is not found.
pub proof fn law_completion_errors_say_why()
    ensures
        transport_missing() == (ApiErrorView {
            code: "not-found"@,
            message: "inference: transport missing"@,
        }),
        inbound_consumed() == (ApiErrorView {
            code: "not-found"@,
            message: "inference: inbound stream already consumed"@,
        }),
{
}

/// A completion sends its request and the end of it behind what went out before,
/// and hands over the caller's stream, once.
pub proof fn law_completion_sends_its_request<I>(
    h: &mut InferenceHost<I>,
    messages: Vec<ChatMessage>,
    opts: InferenceOpts,
    r: Result<I, ApiError>,
)
    requires
        call_ensures(InferenceHost::<I>::complete, (h, messages, opts), r),
    ensures
        old(h)@ is None ==> r is Err && final(h)@ is None,
        old(h)@ matches Some(t) ==> final(h)@ is Some && final(h)@->0.inbound is None
            && final(h)@->0.out == t.out.push(
            P3sEventView::Out(encode_utf8(completion_head(messages@, opts))),
        ).push(P3sEventView::OutEnd),
        old(h)@ matches Some(t) ==> (r is Ok <==> t.inbound is Some),
        r matches Ok(i) ==> old(h)@->0.inbound == Some(i),
{
}

} // verus!
