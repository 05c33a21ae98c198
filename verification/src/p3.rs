//! The host-call round-trips between a running plugin and its caller.
//!
//! A run lives on a worker; only events and byte buffers cross to the caller.
//! [`HwrP3Session`] is the caller's side of the atomic round-trip: one request,
//! one response. [`HwrP3Stream`] is the caller's side of the streaming one:
//! request chunks flow out, response chunks flow in. The event that a poll
//! handles is what the worker's channel delivered, or nothing where the worker
//! is gone.
use crate::api::text_bytes;
use vstd::prelude::*;
use vstd::utf8::encode_utf8;

verus! {

/// A host call awaits a value: read the request, then resolve it.
pub const HWR_P3_PENDING: i32 = 1;

/// The run finished OK: read the result.
pub const HWR_P3_DONE: i32 = 2;

/// The run failed: the result holds the message.
pub const HWR_P3_ERROR: i32 = 3;

/// An outbound chunk is available.
pub const HWR_P3S_OUT: i32 = 0;

/// The outbound stream finished: push the inbound one.
pub const HWR_P3S_OUT_END: i32 = 1;

/// The streaming run finished OK: read the result.
pub const HWR_P3S_DONE: i32 = 2;

/// The streaming run failed: the result holds the message.
pub const HWR_P3S_ERROR: i32 = 3;

/// What the worker of an atomic run reports. `R` is the means to answer.
pub enum P3Event<R> {
    HostCall { request: Vec<u8>, respond: R },
    Done(Result<Vec<u8>, String>),
}

/// An event of an atomic run as a mathematical value.
pub enum P3EventView<R> {
    HostCall { request: Seq<u8>, respond: R },
    Done(Result<Seq<u8>, Seq<char>>),
}

impl<R> View for P3Event<R> {
    type V = P3EventView<R>;

    open spec fn view(&self) -> P3EventView<R> {
        match self {
            P3Event::HostCall { request, respond } => P3EventView::HostCall {
                request: request@,
                respond: *respond,
            },
            P3Event::Done(Ok(out)) => P3EventView::Done(Ok(out@)),
            P3Event::Done(Err(msg)) => P3EventView::Done(Err(msg@)),
        }
    }
}

/// An atomic run in flight, seen from the caller.
pub struct HwrP3Session<R> {
    pending_request: Vec<u8>,
    pending_respond: Option<R>,
    result: Vec<u8>,
    status: Option<i32>,
}

/// The caller's side of an atomic run as a mathematical value.
#[verifier::ext_equal]
pub struct P3SessionView<R> {
    /// The request that awaits an answer, empty where none does.
    pub request: Seq<u8>,
    /// The means to answer the pending request.
    pub respond: Option<R>,
    /// The run's output, or the message of its failure.
    pub result: Seq<u8>,
    /// The status that the run ended with, once it has ended.
    pub status: Option<i32>,
}

impl<R> P3SessionView<R> {
    /// The state of a run that has reported nothing.
    pub open spec fn fresh() -> P3SessionView<R> {
        P3SessionView { request: seq![], respond: None, result: seq![], status: None }
    }

    /// The state after a poll that received `event`.
    pub open spec fn after_poll(self, event: Option<P3EventView<R>>) -> P3SessionView<R> {
        if self.status is Some {
            self
        } else {
            match event {
                Some(P3EventView::HostCall { request, respond }) => P3SessionView {
                    request,
                    respond: Some(respond),
                    ..self
                },
                Some(P3EventView::Done(Ok(out))) => P3SessionView {
                    result: out,
                    status: Some(HWR_P3_DONE),
                    ..self
                },
                Some(P3EventView::Done(Err(msg))) => P3SessionView {
                    result: encode_utf8(msg),
                    status: Some(HWR_P3_ERROR),
                    ..self
                },
                None => P3SessionView { status: Some(HWR_P3_ERROR), ..self },
            }
        }
    }

    /// The status that such a poll returns.
    pub open spec fn poll_status(self, event: Option<P3EventView<R>>) -> i32 {
        if self.status is Some {
            self.status->0
        } else {
            match event {
                Some(P3EventView::HostCall { .. }) => HWR_P3_PENDING,
                Some(P3EventView::Done(Ok(_))) => HWR_P3_DONE,
                _ => HWR_P3_ERROR,
            }
        }
    }

    /// The state after an answer.
    pub open spec fn after_resolve(self) -> P3SessionView<R> {
        P3SessionView { request: seq![], respond: None, ..self }
    }
}

/// The view of an optional event.
pub open spec fn event_view<R>(event: Option<P3Event<R>>) -> Option<P3EventView<R>> {
    match event {
        Some(e) => Some(e@),
        None => None,
    }
}

impl<R> View for HwrP3Session<R> {
    type V = P3SessionView<R>;

    closed spec fn view(&self) -> P3SessionView<R> {
        P3SessionView {
            request: self.pending_request@,
            respond: self.pending_respond,
            result: self.result@,
            status: self.status,
        }
    }
}

impl<R> HwrP3Session<R> {
    /// The caller's side of a run that has just started.
    pub fn new() -> (session: HwrP3Session<R>)
        ensures
            session@ == P3SessionView::<R>::fresh(),
    {
        HwrP3Session {
            pending_request: Vec::new(),
            pending_respond: None,
            result: Vec::new(),
            status: None,
        }
    }

    /// Whether the run is over. A finished run has no more events to wait for.
    pub fn is_finished(&self) -> (r: bool)
        ensures
            r == (self@.status is Some),
    {
        self.status.is_some()
    }

    /// Takes the next event into the session: a pending host call, or the end of
    /// the run. No event means that the worker vanished, which is an error. A run
    /// that has ended goes on reporting the status that it ended with.
    pub fn poll(&mut self, event: Option<P3Event<R>>) -> (status: i32)
        ensures
            final(self)@ == old(self)@.after_poll(event_view(event)),
            status == old(self)@.poll_status(event_view(event)),
    {
        if let Some(status) = self.status {
            return status;
        }
        match event {
            Some(P3Event::HostCall { request, respond }) => {
                self.pending_request = request;
                self.pending_respond = Some(respond);
                HWR_P3_PENDING
            },
            Some(P3Event::Done(Ok(out))) => {
                self.result = out;
                self.status = Some(HWR_P3_DONE);
                HWR_P3_DONE
            },
            Some(P3Event::Done(Err(msg))) => {
                self.result = text_bytes(msg.as_str());
                self.status = Some(HWR_P3_ERROR);
                HWR_P3_ERROR
            },
            None => {
                self.status = Some(HWR_P3_ERROR);
                HWR_P3_ERROR
            },
        }
    }

    /// The pending request.
    pub fn request(&self) -> (bytes: &[u8])
        ensures
            bytes@ == self@.request,
    {
        self.pending_request.as_slice()
    }

    /// Answers the pending host call: hands out what to send through which
    /// responder, and clears the request. Nothing is handed out where no call is
    /// pending.
    pub fn resolve(&mut self, response: Vec<u8>) -> (answer: Option<(R, Vec<u8>)>)
        ensures
            final(self)@ == old(self)@.after_resolve(),
            match answer {
                Some((respond, bytes)) => old(self)@.respond == Some(respond) && bytes == response,
                None => old(self)@.respond is None,
            },
    {
        let respond = self.pending_respond.take();
        self.pending_request.clear();
        assert(self@ =~= old(self)@.after_resolve());
        match respond {
            Some(r) => Some((r, response)),
            None => None,
        }
    }

    /// The run's output, or the message of its failure.
    pub fn result(&self) -> (bytes: &[u8])
        ensures
            bytes@ == self@.result,
    {
        self.result.as_slice()
    }
}

// ── Streaming ───────────────────────────────────────────────────────────────

/// What the worker of a streaming run reports.
pub enum P3sEvent {
    Out(Vec<u8>),
    OutEnd,
    Done(Result<Vec<u8>, String>),
}

/// An event of a streaming run as a mathematical value.
pub enum P3sEventView {
    Out(Seq<u8>),
    OutEnd,
    Done(Result<Seq<u8>, Seq<char>>),
}

impl View for P3sEvent {
    type V = P3sEventView;

    open spec fn view(&self) -> P3sEventView {
        match self {
            P3sEvent::Out(chunk) => P3sEventView::Out(chunk@),
            P3sEvent::OutEnd => P3sEventView::OutEnd,
            P3sEvent::Done(Ok(out)) => P3sEventView::Done(Ok(out@)),
            P3sEvent::Done(Err(msg)) => P3sEventView::Done(Err(msg@)),
        }
    }
}

/// The views of a list of streaming events.
pub open spec fn p3s_views(events: Seq<P3sEvent>) -> Seq<P3sEventView> {
    events.map_values(|e: P3sEvent| e@)
}

/// The outbound side that a driver writes to: chunks of the request, then the
/// end. The events wait here, in order, until they are handed to the caller.
pub struct P3sOut {
    events: Vec<P3sEvent>,
}

impl View for P3sOut {
    type V = Seq<P3sEventView>;

    closed spec fn view(&self) -> Seq<P3sEventView> {
        p3s_views(self.events@)
    }
}

impl P3sOut {
    /// An outbound side with nothing written.
    pub fn new() -> (out: P3sOut)
        ensures
            out@ == Seq::<P3sEventView>::empty(),
    {
        let out = P3sOut { events: Vec::new() };
        assert(out@ =~= Seq::empty());
        out
    }

    /// Emits one outbound chunk.
    pub fn chunk(&mut self, bytes: Vec<u8>)
        ensures
            final(self)@ == old(self)@.push(P3sEventView::Out(bytes@)),
    {
        let event = P3sEvent::Out(bytes);
        self.events.push(event);
        assert(self@ =~= old(self)@.push(P3sEventView::Out(bytes@)));
    }

    /// Ends the outbound stream.
    pub fn end(&mut self)
        ensures
            final(self)@ == old(self)@.push(P3sEventView::OutEnd),
    {
        self.events.push(P3sEvent::OutEnd);
        assert(self@ =~= old(self)@.push(P3sEventView::OutEnd));
    }

    /// Takes the events written so far, oldest first.
    pub fn take(&mut self) -> (events: Vec<P3sEvent>)
        ensures
            p3s_views(events@) == old(self)@,
            final(self)@ == Seq::<P3sEventView>::empty(),
    {
        let mut events: Vec<P3sEvent> = Vec::new();
        events.append(&mut self.events);
        assert(p3s_views(events@) =~= old(self)@);
        assert(self@ =~= Seq::empty());
        events
    }
}

/// A streaming run in flight, seen from the caller.
pub struct HwrP3Stream {
    in_open: bool,
    inbound: Vec<Vec<u8>>,
    current_out: Vec<u8>,
    result: Vec<u8>,
    status: Option<i32>,
}

/// The caller's side of a streaming run as a mathematical value.
#[verifier::ext_equal]
pub struct P3StreamView {
    /// Whether the inbound stream still takes chunks.
    pub in_open: bool,
    /// The inbound chunks that the driver has not received.
    pub inbound: Seq<Seq<u8>>,
    /// The last outbound chunk.
    pub out: Seq<u8>,
    /// The run's output, or the message of its failure.
    pub result: Seq<u8>,
    /// The status that the run ended with, once it has ended.
    pub status: Option<i32>,
}

/// The views of a list of chunks.
pub open spec fn chunk_views(chunks: Seq<Vec<u8>>) -> Seq<Seq<u8>> {
    chunks.map_values(|c: Vec<u8>| c@)
}

impl P3StreamView {
    /// The state of a run that has reported nothing.
    pub open spec fn fresh() -> P3StreamView {
        P3StreamView {
            in_open: true,
            inbound: seq![],
            out: seq![],
            result: seq![],
            status: None,
        }
    }

    /// The state after a poll that received `event`.
    pub open spec fn after_poll(self, event: Option<P3sEventView>) -> P3StreamView {
        if self.status is Some {
            self
        } else {
            match event {
                Some(P3sEventView::Out(chunk)) => P3StreamView { out: chunk, ..self },
                Some(P3sEventView::OutEnd) => self,
                Some(P3sEventView::Done(Ok(out))) => P3StreamView {
                    result: out,
                    status: Some(HWR_P3S_DONE),
                    ..self
                },
                Some(P3sEventView::Done(Err(msg))) => P3StreamView {
                    result: encode_utf8(msg),
                    status: Some(HWR_P3S_ERROR),
                    ..self
                },
                None => P3StreamView { status: Some(HWR_P3S_ERROR), ..self },
            }
        }
    }

    /// The status that such a poll returns.
    pub open spec fn poll_status(self, event: Option<P3sEventView>) -> i32 {
        if self.status is Some {
            self.status->0
        } else {
            match event {
                Some(P3sEventView::Out(_)) => HWR_P3S_OUT,
                Some(P3sEventView::OutEnd) => HWR_P3S_OUT_END,
                Some(P3sEventView::Done(Ok(_))) => HWR_P3S_DONE,
                _ => HWR_P3S_ERROR,
            }
        }
    }

    /// The state after pushing an inbound chunk.
    pub open spec fn after_push(self, chunk: Seq<u8>) -> P3StreamView {
        if self.in_open {
            P3StreamView { inbound: self.inbound.push(chunk), ..self }
        } else {
            self
        }
    }

    /// The state after ending the inbound stream.
    pub open spec fn after_push_end(self) -> P3StreamView {
        P3StreamView { in_open: false, ..self }
    }
}

/// The view of an optional streaming event.
pub open spec fn p3s_event_view(event: Option<P3sEvent>) -> Option<P3sEventView> {
    match event {
        Some(e) => Some(e@),
        None => None,
    }
}

impl View for HwrP3Stream {
    type V = P3StreamView;

    closed spec fn view(&self) -> P3StreamView {
        P3StreamView {
            in_open: self.in_open,
            inbound: chunk_views(self.inbound@),
            out: self.current_out@,
            result: self.result@,
            status: self.status,
        }
    }
}

impl HwrP3Stream {
    /// The caller's side of a streaming run that has just started.
    pub fn new() -> (stream: HwrP3Stream)
        ensures
            stream@ == P3StreamView::fresh(),
    {
        let stream = HwrP3Stream {
            in_open: true,
            inbound: Vec::new(),
            current_out: Vec::new(),
            result: Vec::new(),
            status: None,
        };
        assert(stream@ =~= P3StreamView::fresh());
        stream
    }

    /// Whether the run is over. A finished run has no more events to wait for.
    pub fn is_finished(&self) -> (r: bool)
        ensures
            r == (self@.status is Some),
    {
        self.status.is_some()
    }

    /// Takes the next event into the stream: an outbound chunk, the end of the
    /// outbound stream, or the end of the run. No event means that the worker
    /// vanished, which is an error. A run that has ended goes on reporting the
    /// status that it ended with.
    pub fn poll(&mut self, event: Option<P3sEvent>) -> (status: i32)
        ensures
            final(self)@ == old(self)@.after_poll(p3s_event_view(event)),
            status == old(self)@.poll_status(p3s_event_view(event)),
    {
        if let Some(status) = self.status {
            return status;
        }
        match event {
            Some(P3sEvent::Out(chunk)) => {
                self.current_out = chunk;
                HWR_P3S_OUT
            },
            Some(P3sEvent::OutEnd) => HWR_P3S_OUT_END,
            Some(P3sEvent::Done(Ok(out))) => {
                self.result = out;
                self.status = Some(HWR_P3S_DONE);
                HWR_P3S_DONE
            },
            Some(P3sEvent::Done(Err(msg))) => {
                self.result = text_bytes(msg.as_str());
                self.status = Some(HWR_P3S_ERROR);
                HWR_P3S_ERROR
            },
            None => {
                self.status = Some(HWR_P3S_ERROR);
                HWR_P3S_ERROR
            },
        }
    }

    /// The last outbound chunk.
    pub fn out_chunk(&self) -> (bytes: &[u8])
        ensures
            bytes@ == self@.out,
    {
        self.current_out.as_slice()
    }

    /// Pushes an inbound chunk; after the end it is dropped.
    pub fn push(&mut self, chunk: Vec<u8>)
        ensures
            final(self)@ == old(self)@.after_push(chunk@),
    {
        if self.in_open {
            self.inbound.push(chunk);
            assert(self@ =~= old(self)@.after_push(chunk@));
        }
    }

    /// Ends the inbound stream.
    pub fn push_end(&mut self)
        ensures
            final(self)@ == old(self)@.after_push_end(),
    {
        self.in_open = false;
    }

    /// Takes the inbound chunks for the driver, oldest first, with whether the
    /// stream is still open behind them.
    pub fn take_inbound(&mut self) -> (r: (Vec<Vec<u8>>, bool))
        ensures
            chunk_views(r.0@) == old(self)@.inbound,
            r.1 == old(self)@.in_open,
            final(self)@ == (P3StreamView { inbound: seq![], ..old(self)@ }),
    {
        let mut chunks: Vec<Vec<u8>> = Vec::new();
        chunks.append(&mut self.inbound);
        assert(chunk_views(chunks@) =~= old(self)@.inbound);
        assert(self@ =~= (P3StreamView { inbound: seq![], ..old(self)@ }));
        (chunks, self.in_open)
    }

    /// The run's output, or the message of its failure.
    pub fn result(&self) -> (bytes: &[u8])
        ensures
            bytes@ == self@.result,
    {
        self.result.as_slice()
    }
}

// ── Laws ────────────────────────────────────────────────────────────────────

/// A run that has ended stays as it ended: later polls report the status that
/// its end was first reported with, whatever they are handed, and change
/// nothing. So a run that errored is never reported as finished OK, and its
/// message stays.
pub proof fn law_ended_run_stays_as_it_ended<R>(
    s: P3SessionView<R>,
    event: Option<P3EventView<R>>,
    later: Option<P3EventView<R>>,
)
    ensures
        s.poll_status(event) != HWR_P3_PENDING || s.status is Some ==> s.after_poll(event).status
            == Some(s.poll_status(event)),
        s.after_poll(event).status is Some ==> s.after_poll(event).after_poll(later)
            == s.after_poll(event) && s.after_poll(event).poll_status(later) == s.poll_status(
            event,
        ),
        s.status is None ==> (s.poll_status(event) == HWR_P3_DONE <==> event matches Some(
            P3EventView::Done(Ok(_)),
        )),
{
}

/// A host call that was polled is what the caller reads and answers; once
/// answered it cannot be answered again.
pub proof fn law_call_is_answered_once<R>(s: P3SessionView<R>, request: Seq<u8>, respond: R)
    requires
        s.status is None,
    ensures
        ({
            let pending = s.after_poll(Some(P3EventView::HostCall { request, respond }));
            &&& s.poll_status(Some(P3EventView::HostCall { request, respond })) == HWR_P3_PENDING
            &&& pending.request == request
            &&& pending.respond == Some(respond)
            &&& pending.after_resolve().request == Seq::<u8>::empty()
            &&& pending.after_resolve().respond is None
            &&& pending.after_resolve().status == s.status
        }),
{
}

/// A streaming run that has ended stays as it ended, as an atomic one does.
pub proof fn law_ended_stream_stays_as_it_ended(
    s: P3StreamView,
    event: Option<P3sEventView>,
    later: Option<P3sEventView>,
)
    ensures
        s.poll_status(event) >= HWR_P3S_DONE || s.status is Some ==> s.after_poll(event).status
            == Some(s.poll_status(event)),
        s.after_poll(event).status is Some ==> s.after_poll(event).after_poll(later)
            == s.after_poll(event) && s.after_poll(event).poll_status(later) == s.poll_status(
            event,
        ),
        s.status is None ==> (s.poll_status(event) == HWR_P3S_DONE <==> event matches Some(
            P3sEventView::Done(Ok(_)),
        )),
{
}

/// The inbound chunks keep the order in which they were pushed, and none is
/// taken after the end.
pub proof fn law_inbound_keeps_order_and_ends(s: P3StreamView, a: Seq<u8>, b: Seq<u8>)
    requires
        s.in_open,
    ensures
        s.after_push(a).after_push(b).inbound == s.inbound.push(a).push(b),
        s.after_push(a).after_push_end().after_push(b).inbound == s.inbound.push(a),
{
}

/// A poll reports what the worker did: 1 for a host call, 2 for a run that
/// finished OK, 3 for one that failed or whose worker is gone. The request, the
/// output and the message are what the worker handed over.
pub proof fn law_poll_reports_the_event<R>(
    s: P3SessionView<R>,
    request: Seq<u8>,
    respond: R,
    output: Seq<u8>,
    message: Seq<char>,
)
    requires
        s.status is None,
    ensures
        s.poll_status(Some(P3EventView::HostCall { request, respond })) == 1,
        s.poll_status(Some(P3EventView::Done(Ok(output)))) == 2,
        s.poll_status(Some(P3EventView::Done(Err(message)))) == 3,
        s.poll_status(None) == 3,
        s.after_poll(Some(P3EventView::HostCall { request, respond })) == (P3SessionView {
            request,
            respond: Some(respond),
            result: s.result,
            status: None,
        }),
        s.after_poll(Some(P3EventView::Done(Ok(output)))) == (P3SessionView {
            request: s.request,
            respond: s.respond,
            result: output,
            status: Some(2),
        }),
        s.after_poll(Some(P3EventView::Done(Err(message)))) == (P3SessionView {
            request: s.request,
            respond: s.respond,
            result: encode_utf8(message),
            status: Some(3),
        }),
        s.after_poll(None) == (P3SessionView {
            request: s.request,
            respond: s.respond,
            result: s.result,
            status: Some(3),
        }),
{
}

/// An answer clears the pending request and its responder, and nothing else. A new
/// session has nothing pending and no result.
pub proof fn law_answer_clears_the_request<R>(s: P3SessionView<R>)
    ensures
        s.after_resolve() == (P3SessionView::<R> {
            request: Seq::<u8>::empty(),
            respond: None,
            result: s.result,
            status: s.status,
        }),
        P3SessionView::<R>::fresh() == (P3SessionView::<R> {
            request: Seq::<u8>::empty(),
            respond: None,
            result: Seq::<u8>::empty(),
            status: None,
        }),
{
}

/// A poll of a streaming run reports what the worker did: 0 for a chunk, 1 for the
/// end of the outbound stream, 2 for a run that finished OK, 3 for one that failed
/// or whose worker is gone. Chunk, output and message are what the worker handed
/// over, and the inbound side stays as it is.
pub proof fn law_stream_poll_reports_the_event(
    s: P3StreamView,
    chunk: Seq<u8>,
    output: Seq<u8>,
    message: Seq<char>,
)
    requires
        s.status is None,
    ensures
        s.poll_status(Some(P3sEventView::Out(chunk))) == 0,
        s.poll_status(Some(P3sEventView::OutEnd)) == 1,
        s.poll_status(Some(P3sEventView::Done(Ok(output)))) == 2,
        s.poll_status(Some(P3sEventView::Done(Err(message)))) == 3,
        s.poll_status(None) == 3,
        s.after_poll(Some(P3sEventView::Out(chunk))) == (P3StreamView {
            in_open: s.in_open,
            inbound: s.inbound,
            out: chunk,
            result: s.result,
            status: None,
        }),
        s.after_poll(Some(P3sEventView::OutEnd)) == s,
        s.after_poll(Some(P3sEventView::Done(Ok(output)))) == (P3StreamView {
            in_open: s.in_open,
            inbound: s.inbound,
            out: s.out,
            result: output,
            status: Some(2),
        }),
        s.after_poll(Some(P3sEventView::Done(Err(message)))) == (P3StreamView {
            in_open: s.in_open,
            inbound: s.inbound,
            out: s.out,
            result: encode_utf8(message),
            status: Some(3),
        }),
        s.after_poll(None) == (P3StreamView {
            in_open: s.in_open,
            inbound: s.inbound,
            out: s.out,
            result: s.result,
            status: Some(3),
        }),
{
}

/// A push adds its chunk behind those that wait, while the inbound stream is open,
/// and touches nothing else; the end only closes it. A new stream is open and
/// empty.
pub proof fn law_push_adds_at_the_end(s: P3StreamView, chunk: Seq<u8>)
    ensures
        P3StreamView::fresh().in_open && P3StreamView::fresh().inbound.len() == 0
            && P3StreamView::fresh().out.len() == 0 && P3StreamView::fresh().result.len() == 0
            && P3StreamView::fresh().status is None,
        s.in_open ==> s.after_push(chunk) == (P3StreamView {
            in_open: true,
            inbound: s.inbound.push(chunk),
            out: s.out,
            result: s.result,
            status: s.status,
        }),
        !s.in_open ==> s.after_push(chunk) == s,
        s.after_push_end() == (P3StreamView {
            in_open: false,
            inbound: s.inbound,
            out: s.out,
            result: s.result,
            status: s.status,
        }),
{
}

/// A poll of a session that runs hands over what the worker reported.
pub proof fn law_session_poll_hands_over<R>(
    s: &mut HwrP3Session<R>,
    event: Option<P3Event<R>>,
    status: i32,
)
    requires
        call_ensures(HwrP3Session::<R>::poll, (s, event), status),
    ensures
        old(s)@.status is Some ==> status == old(s)@.status->0 && final(s)@ == old(s)@,
        old(s)@.status is None ==> {
            &&& event matches Some(P3Event::HostCall { request, respond }) ==> status == 1
                && final(s)@.request == request@ && final(s)@.respond == Some(respond)
            &&& event matches Some(P3Event::Done(Ok(out))) ==> status == 2 && final(s)@.result
                == out@
            &&& event matches Some(P3Event::Done(Err(m))) ==> status == 3 && final(s)@.result
                == encode_utf8(m@)
            &&& event is None ==> status == 3
        },
{
}

/// An answer goes out through the pending responder, once, with the bytes that were
/// given.
pub proof fn law_answer_goes_to_the_pending_call<R>(
    s: &mut HwrP3Session<R>,
    response: Vec<u8>,
    answer: Option<(R, Vec<u8>)>,
)
    requires
        call_ensures(HwrP3Session::<R>::resolve, (s, response), answer),
    ensures
        answer is Some <==> old(s)@.respond is Some,
        answer matches Some((to, bytes)) ==> old(s)@.respond == Some(to) && bytes@ == response@,
        final(s)@.respond is None && final(s)@.request.len() == 0,
        final(s)@.result == old(s)@.result && final(s)@.status == old(s)@.status,
{
}

/// A poll of a streaming run hands over what the worker reported.
pub proof fn law_stream_poll_hands_over(s: &mut HwrP3Stream, event: Option<P3sEvent>, status: i32)
    requires
        call_ensures(HwrP3Stream::poll, (s, event), status),
    ensures
        old(s)@.status is Some ==> status == old(s)@.status->0 && final(s)@ == old(s)@,
        old(s)@.status is None ==> {
            &&& event matches Some(P3sEvent::Out(chunk)) ==> status == 0 && final(s)@.out == chunk@
            &&& event matches Some(P3sEvent::OutEnd) ==> status == 1 && final(s)@ == old(s)@
            &&& event matches Some(P3sEvent::Done(Ok(out))) ==> status == 2 && final(s)@.result
                == out@
            &&& event matches Some(P3sEvent::Done(Err(m))) ==> status == 3 && final(s)@.result
                == encode_utf8(m@)
            &&& event is None ==> status == 3
        },
{
}

/// The driver takes the pushed chunks oldest first, each once, and learns whether
/// more may come.
pub proof fn law_driver_takes_what_was_pushed(s: &mut HwrP3Stream, r: (Vec<Vec<u8>>, bool), i: int)
    requires
        call_ensures(HwrP3Stream::take_inbound, (s,), r),
    ensures
        r.0@.len() == old(s)@.inbound.len(),
        0 <= i < r.0@.len() ==> r.0@[i]@ == old(s)@.inbound[i],
        r.1 == old(s)@.in_open,
        final(s)@.inbound.len() == 0,
        final(s)@.result == old(s)@.result && final(s)@.status == old(s)@.status,
{
    if 0 <= i < r.0@.len() {
        assert(chunk_views(r.0@)[i] == r.0@[i]@);
    }
}

/// What a driver writes goes out in order: chunks as they are, then the end.
pub proof fn law_outbound_keeps_order(o: &mut P3sOut, bytes: Vec<u8>)
    requires
        call_ensures(P3sOut::chunk, (o, bytes), ()),
    ensures
        final(o)@ == old(o)@.push(P3sEventView::Out(bytes@)),
{
}

} // verus!
