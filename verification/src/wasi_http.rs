//! The `wasi:http` host state: the resources behind `fields`, `request`,
//! `response` and `request-options`, and what each call does to them.
//!
//! A resource is named by its number in the table of its kind. The body streams
//! and trailers futures that a guest hands in are carried, not read: `B` is a
//! body, `F` a trailers future, and `I` the inbound side of a transport.
use crate::fields::{
    copy_entries, entry_views, fields_for, has_name, value_views, values_of, without, FieldView,
    FieldsData, FieldsView,
};
use crate::p3::{P3sEventView, P3sOut};
use crate::resource_table::{Table, TableView};
use vstd::prelude::*;

verus! {

/// An HTTP method.
#[derive(Debug, PartialEq, Eq)]
pub enum Method {
    Get,
    Head,
    Post,
    Put,
    Delete,
    Connect,
    Options,
    Trace,
    Patch,
    Other(String),
}

/// An HTTP method as a mathematical value.
pub enum MethodView {
    Get,
    Head,
    Post,
    Put,
    Delete,
    Connect,
    Options,
    Trace,
    Patch,
    Other(Seq<char>),
}

impl View for Method {
    type V = MethodView;

    open spec fn view(&self) -> MethodView {
        match self {
            Method::Get => MethodView::Get,
            Method::Head => MethodView::Head,
            Method::Post => MethodView::Post,
            Method::Put => MethodView::Put,
            Method::Delete => MethodView::Delete,
            Method::Connect => MethodView::Connect,
            Method::Options => MethodView::Options,
            Method::Trace => MethodView::Trace,
            Method::Patch => MethodView::Patch,
            Method::Other(s) => MethodView::Other(s@),
        }
    }
}

impl MethodView {
    /// The method's name in a request line.
    pub open spec fn name(self) -> Seq<char> {
        match self {
            MethodView::Get => "GET"@,
            MethodView::Head => "HEAD"@,
            MethodView::Post => "POST"@,
            MethodView::Put => "PUT"@,
            MethodView::Delete => "DELETE"@,
            MethodView::Connect => "CONNECT"@,
            MethodView::Options => "OPTIONS"@,
            MethodView::Trace => "TRACE"@,
            MethodView::Patch => "PATCH"@,
            MethodView::Other(s) => s,
        }
    }
}

/// The method's name in a request line.
pub fn method_str(m: &Method) -> (s: &str)
    ensures
        s@ == m@.name(),
{
    match m {
        Method::Get => "GET",
        Method::Head => "HEAD",
        Method::Post => "POST",
        Method::Put => "PUT",
        Method::Delete => "DELETE",
        Method::Connect => "CONNECT",
        Method::Options => "OPTIONS",
        Method::Trace => "TRACE",
        Method::Patch => "PATCH",
        Method::Other(s) => s.as_str(),
    }
}

impl Clone for Method {
    fn clone(&self) -> (m: Method)
        ensures
            m@ == self@,
    {
        match self {
            Method::Get => Method::Get,
            Method::Head => Method::Head,
            Method::Post => Method::Post,
            Method::Put => Method::Put,
            Method::Delete => Method::Delete,
            Method::Connect => Method::Connect,
            Method::Options => Method::Options,
            Method::Trace => Method::Trace,
            Method::Patch => Method::Patch,
            Method::Other(s) => Method::Other(s.clone()),
        }
    }
}

/// A URI scheme.
#[derive(Debug, PartialEq, Eq)]
pub enum Scheme {
    Http,
    Https,
    Other(String),
}

/// A URI scheme as a mathematical value.
pub enum SchemeView {
    Http,
    Https,
    Other(Seq<char>),
}

impl View for Scheme {
    type V = SchemeView;

    open spec fn view(&self) -> SchemeView {
        match self {
            Scheme::Http => SchemeView::Http,
            Scheme::Https => SchemeView::Https,
            Scheme::Other(s) => SchemeView::Other(s@),
        }
    }
}

impl Clone for Scheme {
    fn clone(&self) -> (s: Scheme)
        ensures
            s@ == self@,
    {
        match self {
            Scheme::Http => Scheme::Http,
            Scheme::Https => Scheme::Https,
            Scheme::Other(s) => Scheme::Other(s.clone()),
        }
    }
}

/// Why a header operation was refused.
#[derive(Debug, Clone, Copy, PartialEq, Eq, Structural)]
pub enum HeaderError {
    Immutable,
}

/// Why a request-options operation was refused.
#[derive(Debug, Clone, Copy, PartialEq, Eq, Structural)]
pub enum RequestOptionsError {
    Immutable,
}

/// Why a request failed.
#[derive(Debug, PartialEq, Eq)]
pub enum ErrorCode {
    /// The request was not let through.
    HttpRequestDenied,
    /// The host failed, with an explanation where there is one.
    InternalError(Option<String>),
}

/// Why a request failed, as a mathematical value.
pub enum ErrorCodeView {
    HttpRequestDenied,
    InternalError(Option<Seq<char>>),
}

/// The view of an optional text.
pub open spec fn text_view(s: Option<String>) -> Option<Seq<char>> {
    match s {
        Some(t) => Some(t@),
        None => None,
    }
}

impl View for ErrorCode {
    type V = ErrorCodeView;

    open spec fn view(&self) -> ErrorCodeView {
        match self {
            ErrorCode::HttpRequestDenied => ErrorCodeView::HttpRequestDenied,
            ErrorCode::InternalError(m) => ErrorCodeView::InternalError(text_view(*m)),
        }
    }
}

/// A copy of an optional text.
fn copy_text(s: &Option<String>) -> (out: Option<String>)
    ensures
        text_view(out) == text_view(*s),
{
    match s {
        Some(t) => Some(t.clone()),
        None => None,
    }
}

/// Backing state of a `request` resource.
pub struct RequestData<B, F> {
    pub method: Method,
    pub path_with_query: Option<String>,
    pub scheme: Option<Scheme>,
    pub authority: Option<String>,
    /// The number of the request's header fields.
    pub headers: u32,
    /// The number of the request's options, if it has any.
    pub options: Option<u32>,
    /// The body stream, where it has not been taken.
    pub body: Option<B>,
    /// The trailers future, where it has not been taken.
    pub trailers: Option<F>,
}

/// A request as a mathematical value.
#[verifier::ext_equal]
pub struct RequestView<B, F> {
    pub method: MethodView,
    pub path_with_query: Option<Seq<char>>,
    pub scheme: Option<SchemeView>,
    pub authority: Option<Seq<char>>,
    pub headers: u32,
    pub options: Option<u32>,
    pub body: Option<B>,
    pub trailers: Option<F>,
}

/// The view of an optional scheme.
pub open spec fn scheme_view(s: Option<Scheme>) -> Option<SchemeView> {
    match s {
        Some(t) => Some(t@),
        None => None,
    }
}

impl<B, F> View for RequestData<B, F> {
    type V = RequestView<B, F>;

    open spec fn view(&self) -> RequestView<B, F> {
        RequestView {
            method: self.method@,
            path_with_query: text_view(self.path_with_query),
            scheme: scheme_view(self.scheme),
            authority: text_view(self.authority),
            headers: self.headers,
            options: self.options,
            body: self.body,
            trailers: self.trailers,
        }
    }
}

impl<B, F> RequestView<B, F> {
    /// A request as it is made: a GET with nothing but its headers and options.
    pub open spec fn made(
        headers: u32,
        options: Option<u32>,
        body: Option<B>,
        trailers: Option<F>,
    ) -> RequestView<B, F> {
        RequestView {
            method: MethodView::Get,
            path_with_query: None,
            scheme: None,
            authority: None,
            headers,
            options,
            body,
            trailers,
        }
    }
}

/// Backing state of a `response` resource.
pub struct ResponseData<B, F> {
    pub status_code: u16,
    /// The number of the response's header fields.
    pub headers: u32,
    /// The body stream, where it has not been taken.
    pub body: Option<B>,
    /// The trailers future, where it has not been taken.
    pub trailers: Option<F>,
}

/// A response as a mathematical value.
#[verifier::ext_equal]
pub struct ResponseView<B, F> {
    pub status_code: u16,
    pub headers: u32,
    pub body: Option<B>,
    pub trailers: Option<F>,
}

impl<B, F> View for ResponseData<B, F> {
    type V = ResponseView<B, F>;

    open spec fn view(&self) -> ResponseView<B, F> {
        ResponseView {
            status_code: self.status_code,
            headers: self.headers,
            body: self.body,
            trailers: self.trailers,
        }
    }
}

/// Backing state of a `request-options` resource: three optional timeouts in
/// nanoseconds.
#[derive(Debug, Clone, Copy)]
pub struct RequestOptionsData {
    pub connect_timeout: Option<u64>,
    pub first_byte_timeout: Option<u64>,
    pub between_bytes_timeout: Option<u64>,
    /// Set once the resource has been handed out as immutable.
    pub immutable: bool,
}

impl View for RequestOptionsData {
    type V = RequestOptionsData;

    open spec fn view(&self) -> RequestOptionsData {
        *self
    }
}

impl RequestOptionsData {
    /// Options with no timeout set, open to changes.
    pub open spec fn unset() -> RequestOptionsData {
        RequestOptionsData {
            connect_timeout: None,
            first_byte_timeout: None,
            between_bytes_timeout: None,
            immutable: false,
        }
    }
}

impl Default for RequestOptionsData {
    fn default() -> (o: RequestOptionsData)
        ensures
            o == RequestOptionsData::unset(),
    {
        RequestOptionsData {
            connect_timeout: None,
            first_byte_timeout: None,
            between_bytes_timeout: None,
            immutable: false,
        }
    }
}

/// The streaming channel pair over which a request is handed to the caller.
pub struct HttpTransport<I> {
    /// Carries the request out.
    pub out: P3sOut,
    /// The caller's response stream, until a request takes it.
    pub inbound: Option<I>,
}

/// A transport as a mathematical value.
#[verifier::ext_equal]
pub struct TransportView<I> {
    pub out: Seq<P3sEventView>,
    pub inbound: Option<I>,
}

impl<I> View for HttpTransport<I> {
    type V = TransportView<I>;

    open spec fn view(&self) -> TransportView<I> {
        TransportView { out: self.out@, inbound: self.inbound }
    }
}

/// The view of an optional transport.
pub open spec fn transport_view<I>(t: Option<HttpTransport<I>>) -> Option<TransportView<I>> {
    match t {
        Some(u) => Some(u@),
        None => None,
    }
}

/// The host state behind `wasi:http`. With a transport, requests are handed to
/// the caller; without one they are answered in-process.
pub struct WasiHttpHost<B, F, I> {
    pub fields: Table<FieldsData>,
    pub requests: Table<RequestData<B, F>>,
    pub responses: Table<ResponseData<B, F>>,
    pub options: Table<RequestOptionsData>,
    pub transport: Option<HttpTransport<I>>,
}

/// The host state as a mathematical value.
#[verifier::ext_equal]
#[verifier::reject_recursive_types(B)]
#[verifier::reject_recursive_types(F)]
pub struct HttpHostView<B, F, I> {
    pub fields: TableView<FieldsView>,
    pub requests: TableView<RequestView<B, F>>,
    pub responses: TableView<ResponseView<B, F>>,
    pub options: TableView<RequestOptionsData>,
    pub transport: Option<TransportView<I>>,
}

impl<B, F, I> View for WasiHttpHost<B, F, I> {
    type V = HttpHostView<B, F, I>;

    open spec fn view(&self) -> HttpHostView<B, F, I> {
        HttpHostView {
            fields: self.fields@,
            requests: self.requests@,
            responses: self.responses@,
            options: self.options@,
            transport: transport_view(self.transport),
        }
    }
}

impl<B, F, I> HttpHostView<B, F, I> {
    /// The fields with a number, where they may be changed.
    pub open spec fn open_fields(self, rep: u32) -> Option<FieldsView> {
        match self.fields.lookup(rep) {
            Some(f) => if f.immutable {
                None
            } else {
                Some(f)
            },
            None => None,
        }
    }

    /// The options with a number, where they may be changed.
    pub open spec fn open_options(self, rep: u32) -> Option<RequestOptionsData> {
        match self.options.lookup(rep) {
            Some(o) => if o.immutable {
                None
            } else {
                Some(o)
            },
            None => None,
        }
    }

    /// The state with other fields under a number.
    pub open spec fn with_entries(self, rep: u32, entries: Seq<FieldView>) -> HttpHostView<
        B,
        F,
        I,
    > {
        HttpHostView {
            fields: self.fields.after_update(
                rep,
                FieldsView { entries, ..self.fields.items[rep] },
            ),
            ..self
        }
    }

    /// The state after handing out the fields with a number as immutable.
    pub open spec fn with_frozen_fields(self, rep: u32) -> HttpHostView<B, F, I> {
        match self.fields.lookup(rep) {
            Some(f) => HttpHostView {
                fields: self.fields.after_update(rep, FieldsView { immutable: true, ..f }),
                ..self
            },
            None => self,
        }
    }

    /// The state after handing out the options with a number as immutable.
    pub open spec fn with_frozen_options(self, rep: u32) -> HttpHostView<B, F, I> {
        match self.options.lookup(rep) {
            Some(o) => HttpHostView {
                options: self.options.after_update(
                    rep,
                    RequestOptionsData { immutable: true, ..o },
                ),
                ..self
            },
            None => self,
        }
    }

    /// The state with another request under a number.
    pub open spec fn with_request(self, rep: u32, r: RequestView<B, F>) -> HttpHostView<B, F, I> {
        HttpHostView { requests: self.requests.after_update(rep, r), ..self }
    }

    /// The state with another response under a number.
    pub open spec fn with_response(self, rep: u32, r: ResponseView<B, F>) -> HttpHostView<B, F, I> {
        HttpHostView { responses: self.responses.after_update(rep, r), ..self }
    }

    /// The state with other options under a number.
    pub open spec fn with_options(self, rep: u32, o: RequestOptionsData) -> HttpHostView<B, F, I> {
        HttpHostView { options: self.options.after_update(rep, o), ..self }
    }

    /// The entries of the fields with a number; none where there are no such
    /// fields.
    pub open spec fn entries_of(self, rep: u32) -> Seq<FieldView> {
        match self.fields.lookup(rep) {
            Some(f) => f.entries,
            None => seq![],
        }
    }
}

impl<B, F, I> WasiHttpHost<B, F, I> {
    /// A host without a transport and without resources.
    pub fn new() -> (host: WasiHttpHost<B, F, I>)
        ensures
            host@ == (HttpHostView::<B, F, I> {
                fields: TableView::empty(),
                requests: TableView::empty(),
                responses: TableView::empty(),
                options: TableView::empty(),
                transport: None,
            }),
    {
        WasiHttpHost {
            fields: Table::new(),
            requests: Table::new(),
            responses: Table::new(),
            options: Table::new(),
            transport: None,
        }
    }

    /// A host that hands its requests to the caller.
    pub fn with_transport(out: P3sOut, inbound: I) -> (host: WasiHttpHost<B, F, I>)
        ensures
            host@ == (HttpHostView::<B, F, I> {
                fields: TableView::empty(),
                requests: TableView::empty(),
                responses: TableView::empty(),
                options: TableView::empty(),
                transport: Some(TransportView { out: out@, inbound: Some(inbound) }),
            }),
    {
        WasiHttpHost {
            fields: Table::new(),
            requests: Table::new(),
            responses: Table::new(),
            options: Table::new(),
            transport: Some(HttpTransport { out, inbound: Some(inbound) }),
        }
    }

    /// Whether requests are handed to the caller.
    pub fn has_transport(&self) -> (r: bool)
        ensures
            r == self@.transport is Some,
    {
        self.transport.is_some()
    }

    // ── fields ──────────────────────────────────────────────────────────────

    /// Makes empty fields.
    pub fn fields_new(&mut self) -> (rep: u32)
        requires
            old(self)@.fields.has_room(1),
        ensures
            rep == old(self)@.fields.next,
            final(self)@ == (HttpHostView {
                fields: old(self)@.fields.after_insert(
                    FieldsView { entries: seq![], immutable: false },
                ),
                ..old(self)@
            }),
    {
        self.fields.insert(FieldsData::new())
    }

    /// Makes fields from a list, repeated names included.
    pub fn fields_from_list(&mut self, entries: Vec<(String, Vec<u8>)>) -> (r: Result<
        u32,
        HeaderError,
    >)
        requires
            old(self)@.fields.has_room(1),
        ensures
            r == Ok::<u32, HeaderError>(old(self)@.fields.next),
            final(self)@ == (HttpHostView {
                fields: old(self)@.fields.after_insert(
                    FieldsView { entries: entry_views(entries@), immutable: false },
                ),
                ..old(self)@
            }),
    {
        Ok(self.fields.insert(FieldsData { entries, immutable: false }))
    }

    /// The values of a name; none where there are no such fields.
    pub fn fields_get(&mut self, rep: u32, name: String) -> (values: Vec<Vec<u8>>)
        ensures
            *final(self) == *old(self),
            value_views(values@) == values_of(old(self)@.entries_of(rep), name@),
    {
        match self.fields.get(rep) {
            Some(f) => f.get(name.as_str()),
            None => FieldsData::new().get(name.as_str()),
        }
    }

    /// Whether a name occurs.
    pub fn fields_has(&mut self, rep: u32, name: String) -> (r: bool)
        ensures
            *final(self) == *old(self),
            r == has_name(old(self)@.entries_of(rep), name@),
    {
        match self.fields.get(rep) {
            Some(f) => f.has(name.as_str()),
            None => false,
        }
    }

    /// Whether the fields with a number exist and may be changed.
    fn fields_open(&self, rep: u32) -> (r: bool)
        ensures
            r == self@.open_fields(rep) is Some,
    {
        match self.fields.get(rep) {
            Some(f) => !f.immutable,
            None => false,
        }
    }

    /// Replaces the values of a name.
    pub fn fields_set(&mut self, rep: u32, name: String, value: Vec<Vec<u8>>) -> (r: Result<
        (),
        HeaderError,
    >)
        ensures
            match old(self)@.open_fields(rep) {
                Some(f) => r is Ok && final(self)@ == old(self)@.with_entries(
                    rep,
                    without(f.entries, name@) + fields_for(name@, value_views(value@)),
                ),
                None => r == Err::<(), HeaderError>(HeaderError::Immutable) && *final(self)
                    == *old(self),
            },
    {
        if !self.fields_open(rep) {
            return Err(HeaderError::Immutable);
        }
        if let Some(f) = self.fields.get_mut(rep) {
            f.set(name.as_str(), value);
        }
        Ok(())
    }

    /// Removes a name.
    pub fn fields_delete(&mut self, rep: u32, name: String) -> (r: Result<(), HeaderError>)
        ensures
            match old(self)@.open_fields(rep) {
                Some(f) => r is Ok && final(self)@ == old(self)@.with_entries(
                    rep,
                    without(f.entries, name@),
                ),
                None => r == Err::<(), HeaderError>(HeaderError::Immutable) && *final(self)
                    == *old(self),
            },
    {
        if !self.fields_open(rep) {
            return Err(HeaderError::Immutable);
        }
        if let Some(f) = self.fields.get_mut(rep) {
            f.delete(name.as_str());
        }
        Ok(())
    }

    /// Removes a name and returns its values.
    pub fn fields_get_and_delete(&mut self, rep: u32, name: String) -> (r: Result<
        Vec<Vec<u8>>,
        HeaderError,
    >)
        ensures
            match old(self)@.open_fields(rep) {
                Some(f) => {
                    &&& r is Ok
                    &&& value_views(r->Ok_0@) == values_of(f.entries, name@)
                    &&& final(self)@ == old(self)@.with_entries(rep, without(f.entries, name@))
                },
                None => r is Err && r->Err_0 == HeaderError::Immutable && *final(self)
                    == *old(self),
            },
    {
        if !self.fields_open(rep) {
            return Err(HeaderError::Immutable);
        }
        match self.fields.get_mut(rep) {
            Some(f) => Ok(f.get_and_delete(name.as_str())),
            None => Err(HeaderError::Immutable),
        }
    }

    /// Adds a field at the end.
    pub fn fields_append(&mut self, rep: u32, name: String, value: Vec<u8>) -> (r: Result<
        (),
        HeaderError,
    >)
        ensures
            match old(self)@.open_fields(rep) {
                Some(f) => r is Ok && final(self)@ == old(self)@.with_entries(
                    rep,
                    f.entries.push((name@, value@)),
                ),
                None => r == Err::<(), HeaderError>(HeaderError::Immutable) && *final(self)
                    == *old(self),
            },
    {
        if !self.fields_open(rep) {
            return Err(HeaderError::Immutable);
        }
        if let Some(f) = self.fields.get_mut(rep) {
            f.append(name.as_str(), value);
        }
        Ok(())
    }

    /// All fields, in order.
    pub fn fields_copy_all(&mut self, rep: u32) -> (entries: Vec<(String, Vec<u8>)>)
        ensures
            *final(self) == *old(self),
            entry_views(entries@) == old(self)@.entries_of(rep),
    {
        match self.fields.get(rep) {
            Some(f) => copy_entries(f.entries.as_slice()),
            None => {
                let none: Vec<(String, Vec<u8>)> = Vec::new();
                assert(entry_views(none@) =~= seq![]);
                none
            },
        }
    }

    /// Makes an independent copy of fields, open to changes.
    pub fn fields_clone(&mut self, rep: u32) -> (copy: u32)
        requires
            old(self)@.fields.has_room(1),
        ensures
            copy == old(self)@.fields.next,
            final(self)@ == (HttpHostView {
                fields: old(self)@.fields.after_insert(
                    FieldsView { entries: old(self)@.entries_of(rep), immutable: false },
                ),
                ..old(self)@
            }),
    {
        let entries = self.fields_copy_all(rep);
        self.fields.insert(FieldsData { entries, immutable: false })
    }

    /// Drops fields.
    pub fn fields_drop(&mut self, rep: u32)
        ensures
            final(self)@ == (HttpHostView {
                fields: old(self)@.fields.after_remove(rep),
                ..old(self)@
            }),
    {
        self.fields.remove(rep);
    }

    /// Hands out fields as immutable.
    fn freeze_fields(&mut self, rep: u32)
        ensures
            final(self)@ == old(self)@.with_frozen_fields(rep),
    {
        if let Some(f) = self.fields.get_mut(rep) {
            f.immutable = true;
        }
    }

    // ── requests ────────────────────────────────────────────────────────────

    /// Makes a GET request with the given headers, body, trailers and options.
    pub fn request_new(
        &mut self,
        headers: u32,
        contents: Option<B>,
        trailers: F,
        options: Option<u32>,
    ) -> (rep: u32)
        requires
            old(self)@.requests.has_room(1),
        ensures
            rep == old(self)@.requests.next,
            final(self)@ == (HttpHostView {
                requests: old(self)@.requests.after_insert(
                    RequestView::made(headers, options, contents, Some(trailers)),
                ),
                ..old(self)@
            }),
    {
        self.requests.insert(
            RequestData {
                method: Method::Get,
                path_with_query: None,
                scheme: None,
                authority: None,
                headers,
                options,
                body: contents,
                trailers: Some(trailers),
            },
        )
    }

    /// Takes the request's body and trailers out, where they are still there.
    pub fn request_consume_body(&mut self, rep: u32) -> (r: (Option<B>, Option<F>))
        ensures
            match old(self)@.requests.lookup(rep) {
                Some(q) => r == (q.body, q.trailers) && final(self)@ == old(self)@.with_request(
                    rep,
                    RequestView { body: None, trailers: None, ..q },
                ),
                None => r == (None::<B>, None::<F>) && final(self)@ == old(self)@,
            },
    {
        match self.requests.get_mut(rep) {
            Some(q) => {
                let body = q.body.take();
                let trailers = q.trailers.take();
                (body, trailers)
            },
            None => (None, None),
        }
    }

    /// The method; GET where there is no such request.
    pub fn request_get_method(&mut self, rep: u32) -> (m: Method)
        ensures
            *final(self) == *old(self),
            m@ == (match old(self)@.requests.lookup(rep) {
                Some(q) => q.method,
                None => MethodView::Get,
            }),
    {
        match self.requests.get(rep) {
            Some(q) => q.method.clone(),
            None => Method::Get,
        }
    }

    /// Sets the method.
    pub fn request_set_method(&mut self, rep: u32, method: Method) -> (r: Result<(), ()>)
        ensures
            match old(self)@.requests.lookup(rep) {
                Some(q) => r is Ok && final(self)@ == old(self)@.with_request(
                    rep,
                    RequestView { method: method@, ..q },
                ),
                None => r is Err && final(self)@ == old(self)@,
            },
    {
        match self.requests.get_mut(rep) {
            Some(q) => {
                q.method = method;
                Ok(())
            },
            None => Err(()),
        }
    }

    /// The path with its query.
    pub fn request_get_path_with_query(&mut self, rep: u32) -> (p: Option<String>)
        ensures
            *final(self) == *old(self),
            text_view(p) == (match old(self)@.requests.lookup(rep) {
                Some(q) => q.path_with_query,
                None => None,
            }),
    {
        match self.requests.get(rep) {
            Some(q) => copy_text(&q.path_with_query),
            None => None,
        }
    }

    /// Sets the path with its query.
    pub fn request_set_path_with_query(&mut self, rep: u32, path_with_query: Option<String>) -> (r:
        Result<(), ()>)
        ensures
            match old(self)@.requests.lookup(rep) {
                Some(q) => r is Ok && final(self)@ == old(self)@.with_request(
                    rep,
                    RequestView { path_with_query: text_view(path_with_query), ..q },
                ),
                None => r is Err && final(self)@ == old(self)@,
            },
    {
        match self.requests.get_mut(rep) {
            Some(q) => {
                q.path_with_query = path_with_query;
                Ok(())
            },
            None => Err(()),
        }
    }

    /// The scheme.
    pub fn request_get_scheme(&mut self, rep: u32) -> (s: Option<Scheme>)
        ensures
            *final(self) == *old(self),
            scheme_view(s) == (match old(self)@.requests.lookup(rep) {
                Some(q) => q.scheme,
                None => None,
            }),
    {
        match self.requests.get(rep) {
            Some(q) => match &q.scheme {
                Some(s) => Some(s.clone()),
                None => None,
            },
            None => None,
        }
    }

    /// Sets the scheme.
    pub fn request_set_scheme(&mut self, rep: u32, scheme: Option<Scheme>) -> (r: Result<(), ()>)
        ensures
            match old(self)@.requests.lookup(rep) {
                Some(q) => r is Ok && final(self)@ == old(self)@.with_request(
                    rep,
                    RequestView { scheme: scheme_view(scheme), ..q },
                ),
                None => r is Err && final(self)@ == old(self)@,
            },
    {
        match self.requests.get_mut(rep) {
            Some(q) => {
                q.scheme = scheme;
                Ok(())
            },
            None => Err(()),
        }
    }

    /// The authority.
    pub fn request_get_authority(&mut self, rep: u32) -> (a: Option<String>)
        ensures
            *final(self) == *old(self),
            text_view(a) == (match old(self)@.requests.lookup(rep) {
                Some(q) => q.authority,
                None => None,
            }),
    {
        match self.requests.get(rep) {
            Some(q) => copy_text(&q.authority),
            None => None,
        }
    }

    /// Sets the authority.
    pub fn request_set_authority(&mut self, rep: u32, authority: Option<String>) -> (r: Result<
        (),
        (),
    >)
        ensures
            match old(self)@.requests.lookup(rep) {
                Some(q) => r is Ok && final(self)@ == old(self)@.with_request(
                    rep,
                    RequestView { authority: text_view(authority), ..q },
                ),
                None => r is Err && final(self)@ == old(self)@,
            },
    {
        match self.requests.get_mut(rep) {
            Some(q) => {
                q.authority = authority;
                Ok(())
            },
            None => Err(()),
        }
    }

    /// Hands out the request's options, immutable from then on.
    pub fn request_get_options(&mut self, rep: u32) -> (r: Option<u32>)
        ensures
            ({
                let options = match old(self)@.requests.lookup(rep) {
                    Some(q) => q.options,
                    None => None,
                };
                &&& r == options
                &&& final(self)@ == (match options {
                    Some(o) => old(self)@.with_frozen_options(o),
                    None => old(self)@,
                })
            }),
    {
        let options: Option<u32> = match self.requests.get(rep) {
            Some(q) => q.options,
            None => None,
        };
        if let Some(o) = options {
            if let Some(data) = self.options.get_mut(o) {
                data.immutable = true;
            }
        }
        options
    }

    /// Hands out the request's headers, immutable from then on; 0 where there is
    /// no such request.
    pub fn request_get_headers(&mut self, rep: u32) -> (headers: u32)
        ensures
            headers == (match old(self)@.requests.lookup(rep) {
                Some(q) => q.headers,
                None => 0,
            }),
            final(self)@ == old(self)@.with_frozen_fields(headers),
    {
        let headers: u32 = match self.requests.get(rep) {
            Some(q) => q.headers,
            None => 0,
        };
        self.freeze_fields(headers);
        headers
    }

    /// Drops a request.
    pub fn request_drop(&mut self, rep: u32)
        ensures
            final(self)@ == (HttpHostView {
                requests: old(self)@.requests.after_remove(rep),
                ..old(self)@
            }),
    {
        self.requests.remove(rep);
    }

    // ── responses ───────────────────────────────────────────────────────────

    /// Makes a response with status 200 and the given headers, body and trailers.
    pub fn response_new(&mut self, headers: u32, contents: Option<B>, trailers: F) -> (rep: u32)
        requires
            old(self)@.responses.has_room(1),
        ensures
            rep == old(self)@.responses.next,
            final(self)@ == (HttpHostView {
                responses: old(self)@.responses.after_insert(
                    ResponseView {
                        status_code: 200,
                        headers,
                        body: contents,
                        trailers: Some(trailers),
                    },
                ),
                ..old(self)@
            }),
    {
        self.responses.insert(
            ResponseData { status_code: 200, headers, body: contents, trailers: Some(trailers) },
        )
    }

    /// Takes the response's body and trailers out, where they are still there.
    pub fn response_consume_body(&mut self, rep: u32) -> (r: (Option<B>, Option<F>))
        ensures
            match old(self)@.responses.lookup(rep) {
                Some(p) => r == (p.body, p.trailers) && final(self)@ == old(self)@.with_response(
                    rep,
                    ResponseView { body: None, trailers: None, ..p },
                ),
                None => r == (None::<B>, None::<F>) && final(self)@ == old(self)@,
            },
    {
        match self.responses.get_mut(rep) {
            Some(p) => {
                let body = p.body.take();
                let trailers = p.trailers.take();
                (body, trailers)
            },
            None => (None, None),
        }
    }

    /// The status code; 200 where there is no such response.
    pub fn response_get_status_code(&mut self, rep: u32) -> (code: u16)
        ensures
            *final(self) == *old(self),
            code == (match old(self)@.responses.lookup(rep) {
                Some(p) => p.status_code,
                None => 200,
            }),
    {
        match self.responses.get(rep) {
            Some(p) => p.status_code,
            None => 200,
        }
    }

    /// Sets the status code; codes outside 100 to 599 are refused.
    pub fn response_set_status_code(&mut self, rep: u32, status_code: u16) -> (r: Result<(), ()>)
        ensures
            match old(self)@.responses.lookup(rep) {
                Some(p) => if 100 <= status_code <= 599 {
                    r is Ok && final(self)@ == old(self)@.with_response(
                        rep,
                        ResponseView { status_code, ..p },
                    )
                } else {
                    r is Err && final(self)@ == old(self)@
                },
                None => r is Err && final(self)@ == old(self)@,
            },
    {
        if status_code < 100 || status_code > 599 {
            return Err(());
        }
        match self.responses.get_mut(rep) {
            Some(p) => {
                p.status_code = status_code;
                Ok(())
            },
            None => Err(()),
        }
    }

    /// Hands out the response's headers, immutable from then on; 0 where there is
    /// no such response.
    pub fn response_get_headers(&mut self, rep: u32) -> (headers: u32)
        ensures
            headers == (match old(self)@.responses.lookup(rep) {
                Some(p) => p.headers,
                None => 0,
            }),
            final(self)@ == old(self)@.with_frozen_fields(headers),
    {
        let headers: u32 = match self.responses.get(rep) {
            Some(p) => p.headers,
            None => 0,
        };
        self.freeze_fields(headers);
        headers
    }

    /// Drops a response.
    pub fn response_drop(&mut self, rep: u32)
        ensures
            final(self)@ == (HttpHostView {
                responses: old(self)@.responses.after_remove(rep),
                ..old(self)@
            }),
    {
        self.responses.remove(rep);
    }

    // ── request options ─────────────────────────────────────────────────────

    /// Makes options with no timeout set.
    pub fn options_new(&mut self) -> (rep: u32)
        requires
            old(self)@.options.has_room(1),
        ensures
            rep == old(self)@.options.next,
            final(self)@ == (HttpHostView {
                options: old(self)@.options.after_insert(RequestOptionsData::unset()),
                ..old(self)@
            }),
    {
        self.options.insert(RequestOptionsData::default())
    }

    /// The connect timeout.
    pub fn options_get_connect_timeout(&mut self, rep: u32) -> (d: Option<u64>)
        ensures
            *final(self) == *old(self),
            d == (match old(self)@.options.lookup(rep) {
                Some(o) => o.connect_timeout,
                None => None,
            }),
    {
        match self.options.get(rep) {
            Some(o) => o.connect_timeout,
            None => None,
        }
    }

    /// Sets the connect timeout.
    pub fn options_set_connect_timeout(&mut self, rep: u32, duration: Option<u64>) -> (r: Result<
        (),
        RequestOptionsError,
    >)
        ensures
            match old(self)@.open_options(rep) {
                Some(o) => r is Ok && final(self)@ == old(self)@.with_options(
                    rep,
                    RequestOptionsData { connect_timeout: duration, ..o },
                ),
                None => r is Err && r->Err_0 == RequestOptionsError::Immutable && *final(self)
                    == *old(self),
            },
    {
        if !self.options_open(rep) {
            return Err(RequestOptionsError::Immutable);
        }
        if let Some(o) = self.options.get_mut(rep) {
            o.connect_timeout = duration;
        }
        Ok(())
    }

    /// The timeout for the first byte.
    pub fn options_get_first_byte_timeout(&mut self, rep: u32) -> (d: Option<u64>)
        ensures
            *final(self) == *old(self),
            d == (match old(self)@.options.lookup(rep) {
                Some(o) => o.first_byte_timeout,
                None => None,
            }),
    {
        match self.options.get(rep) {
            Some(o) => o.first_byte_timeout,
            None => None,
        }
    }

    /// Sets the timeout for the first byte.
    pub fn options_set_first_byte_timeout(&mut self, rep: u32, duration: Option<u64>) -> (r: Result<
        (),
        RequestOptionsError,
    >)
        ensures
            match old(self)@.open_options(rep) {
                Some(o) => r is Ok && final(self)@ == old(self)@.with_options(
                    rep,
                    RequestOptionsData { first_byte_timeout: duration, ..o },
                ),
                None => r is Err && r->Err_0 == RequestOptionsError::Immutable && *final(self)
                    == *old(self),
            },
    {
        if !self.options_open(rep) {
            return Err(RequestOptionsError::Immutable);
        }
        if let Some(o) = self.options.get_mut(rep) {
            o.first_byte_timeout = duration;
        }
        Ok(())
    }

    /// The timeout between bytes.
    pub fn options_get_between_bytes_timeout(&mut self, rep: u32) -> (d: Option<u64>)
        ensures
            *final(self) == *old(self),
            d == (match old(self)@.options.lookup(rep) {
                Some(o) => o.between_bytes_timeout,
                None => None,
            }),
    {
        match self.options.get(rep) {
            Some(o) => o.between_bytes_timeout,
            None => None,
        }
    }

    /// Sets the timeout between bytes.
    pub fn options_set_between_bytes_timeout(&mut self, rep: u32, duration: Option<u64>) -> (r:
        Result<(), RequestOptionsError>)
        ensures
            match old(self)@.open_options(rep) {
                Some(o) => r is Ok && final(self)@ == old(self)@.with_options(
                    rep,
                    RequestOptionsData { between_bytes_timeout: duration, ..o },
                ),
                None => r is Err && r->Err_0 == RequestOptionsError::Immutable && *final(self)
                    == *old(self),
            },
    {
        if !self.options_open(rep) {
            return Err(RequestOptionsError::Immutable);
        }
        if let Some(o) = self.options.get_mut(rep) {
            o.between_bytes_timeout = duration;
        }
        Ok(())
    }

    /// Whether the options with a number exist and may be changed.
    fn options_open(&self, rep: u32) -> (r: bool)
        ensures
            r == self@.open_options(rep) is Some,
    {
        match self.options.get(rep) {
            Some(o) => !o.immutable,
            None => false,
        }
    }

    /// Makes an independent copy of options, open to changes.
    pub fn options_clone(&mut self, rep: u32) -> (copy: u32)
        requires
            old(self)@.options.has_room(1),
        ensures
            copy == old(self)@.options.next,
            final(self)@ == (HttpHostView {
                options: old(self)@.options.after_insert(
                    match old(self)@.options.lookup(rep) {
                        Some(o) => RequestOptionsData { immutable: false, ..o },
                        None => RequestOptionsData::unset(),
                    },
                ),
                ..old(self)@
            }),
    {
        let mut data = match self.options.get(rep) {
            Some(o) => *o,
            None => RequestOptionsData::default(),
        };
        data.immutable = false;
        self.options.insert(data)
    }

    /// Drops options.
    pub fn options_drop(&mut self, rep: u32)
        ensures
            final(self)@ == (HttpHostView {
                options: old(self)@.options.after_remove(rep),
                ..old(self)@
            }),
    {
        self.options.remove(rep);
    }
}

// ── Laws ────────────────────────────────────────────────────────────────────

/// Headers that were handed out are immutable from then on, and their content
/// and every other fields stay as they were.
pub proof fn law_handed_out_headers_are_immutable<B, F, I>(
    host: HttpHostView<B, F, I>,
    rep: u32,
    other: u32,
)
    ensures
        host.with_frozen_fields(rep).open_fields(rep) is None,
        host.with_frozen_fields(rep).entries_of(rep) == host.entries_of(rep),
        other != rep ==> host.with_frozen_fields(rep).fields.lookup(other) == host.fields.lookup(
            other,
        ),
{
}

/// Options that were handed out are immutable from then on, and their timeouts
/// stay as they were.
pub proof fn law_handed_out_options_are_immutable<B, F, I>(host: HttpHostView<B, F, I>, rep: u32)
    ensures
        host.with_frozen_options(rep).open_options(rep) is None,
        host.options.lookup(rep) matches Some(o) ==> host.with_frozen_options(rep).options.lookup(
            rep,
        ) == Some(RequestOptionsData { immutable: true, ..o }),
{
}

/// A copy of fields is open to changes, holds the same entries, and is
/// independent: changing it leaves the fields it was made from as they were.
pub proof fn law_copy_is_independent<B, F, I>(
    host: HttpHostView<B, F, I>,
    rep: u32,
    entries: Seq<FieldView>,
)
    requires
        host.fields.numbered(),
        host.fields.has_room(1),
        host.fields.lookup(rep) is Some,
    ensures
        ({
            let copy = host.fields.next;
            let copied = HttpHostView::<B, F, I> {
                fields: host.fields.after_insert(
                    FieldsView { entries: host.entries_of(rep), immutable: false },
                ),
                ..host
            };
            &&& copy != rep
            &&& copied.open_fields(copy) is Some
            &&& copied.entries_of(copy) == host.entries_of(rep)
            &&& copied.with_entries(copy, entries).entries_of(copy) == entries
            &&& copied.with_entries(copy, entries).fields.lookup(rep) == host.fields.lookup(rep)
        }),
{
}

/// A body can be taken once: the second taker gets nothing.
pub proof fn law_body_is_taken_once<B, F, I>(
    host: HttpHostView<B, F, I>,
    rep: u32,
    q: RequestView<B, F>,
)
    requires
        host.requests.lookup(rep) == Some(q),
    ensures
        ({
            let taken = host.with_request(rep, RequestView { body: None, trailers: None, ..q });
            &&& taken.requests.lookup(rep) is Some
            &&& taken.requests.lookup(rep)->0.body is None
            &&& taken.requests.lookup(rep)->0.trailers is None
        }),
{
}

/// A method is written by the name that it has in HTTP.
pub proof fn law_methods_have_their_names(m: &Method, s: &str)
    requires
        call_ensures(method_str, (m,), s),
    ensures
        *m matches Method::Get ==> s@ == "GET"@,
        *m matches Method::Head ==> s@ == "HEAD"@,
        *m matches Method::Post ==> s@ == "POST"@,
        *m matches Method::Put ==> s@ == "PUT"@,
        *m matches Method::Delete ==> s@ == "DELETE"@,
        *m matches Method::Connect ==> s@ == "CONNECT"@,
        *m matches Method::Options ==> s@ == "OPTIONS"@,
        *m matches Method::Trace ==> s@ == "TRACE"@,
        *m matches Method::Patch ==> s@ == "PATCH"@,
        *m matches Method::Other(o) ==> s@ == o@,
        s@ == m@.name(),
{
}

/// Fields and options may be changed exactly where they exist and were not handed
/// out as immutable.
pub proof fn law_only_open_resources_change<B, F, I>(host: HttpHostView<B, F, I>, rep: u32)
    ensures
        host.open_fields(rep) is Some <==> host.fields.items.contains_key(rep)
            && !host.fields.items[rep].immutable,
        host.open_fields(rep) matches Some(f) ==> f == host.fields.items[rep],
        host.open_options(rep) is Some <==> host.options.items.contains_key(rep)
            && !host.options.items[rep].immutable,
        host.open_options(rep) matches Some(o) ==> o == host.options.items[rep],
        host.fields.items.contains_key(rep) ==> host.entries_of(rep)
            == host.fields.items[rep].entries,
        !host.fields.items.contains_key(rep) ==> host.entries_of(rep) == Seq::<FieldView>::empty(),
{
}

/// A change of one resource leaves every other resource as it was.
pub proof fn law_a_change_stays_local<B, F, I>(
    host: HttpHostView<B, F, I>,
    rep: u32,
    other: u32,
    entries: Seq<FieldView>,
    request: RequestView<B, F>,
    response: ResponseView<B, F>,
    options: RequestOptionsData,
)
    requires
        host.fields.items.contains_key(rep),
    ensures
        host.with_entries(rep, entries).entries_of(rep) == entries,
        host.with_entries(rep, entries).fields.items[rep].immutable
            == host.fields.items[rep].immutable,
        other != rep ==> host.with_entries(rep, entries).fields.lookup(other)
            == host.fields.lookup(other),
        host.with_entries(rep, entries).requests == host.requests,
        host.with_entries(rep, entries).responses == host.responses,
        host.with_entries(rep, entries).options == host.options,
        host.with_entries(rep, entries).transport == host.transport,
        host.with_frozen_fields(rep).fields.items[rep].immutable,
        host.with_frozen_fields(rep).entries_of(rep) == host.entries_of(rep),
        other != rep ==> host.with_frozen_fields(rep).fields.lookup(other) == host.fields.lookup(
            other,
        ),
        host.with_request(rep, request).requests.lookup(rep) == Some(request),
        other != rep ==> host.with_request(rep, request).requests.lookup(other)
            == host.requests.lookup(other),
        host.with_request(rep, request).fields == host.fields,
        host.with_response(rep, response).responses.lookup(rep) == Some(response),
        other != rep ==> host.with_response(rep, response).responses.lookup(other)
            == host.responses.lookup(other),
        host.with_options(rep, options).options.lookup(rep) == Some(options),
        other != rep ==> host.with_options(rep, options).options.lookup(other)
            == host.options.lookup(other),
{
}

/// A new request is a GET with no path, scheme or authority set; new options have
/// no timeout set and are open.
pub proof fn law_new_resources_start_plain<B, F>(
    headers: u32,
    options: Option<u32>,
    body: Option<B>,
    trailers: Option<F>,
)
    ensures
        ({
            let q = RequestView::<B, F>::made(headers, options, body, trailers);
            &&& q.method.name() == "GET"@
            &&& q.path_with_query is None && q.scheme is None && q.authority is None
            &&& q.headers == headers && q.options == options
            &&& q.body == body && q.trailers == trailers
        }),
        ({
            let o = RequestOptionsData::unset();
            &&& o.connect_timeout is None && o.first_byte_timeout is None
            &&& o.between_bytes_timeout is None && !o.immutable
        }),
{
}

/// What the host holds of a request is what the guest set.
pub proof fn law_request_view_is_faithful<B, F>(q: RequestData<B, F>)
    ensures
        q.method matches Method::Get ==> q@.method is Get,
        q.method matches Method::Post ==> q@.method is Post,
        q.scheme matches Some(Scheme::Http) ==> q@.scheme == Some(SchemeView::Http),
        q.scheme matches Some(Scheme::Https) ==> q@.scheme == Some(SchemeView::Https),
        q.scheme matches Some(Scheme::Other(o)) ==> q@.scheme == Some(SchemeView::Other(o@)),
        q.scheme is None ==> q@.scheme is None,
        q.authority matches Some(a) ==> q@.authority == Some(a@),
        q.authority is None ==> q@.authority is None,
        q.path_with_query matches Some(p) ==> q@.path_with_query == Some(p@),
        q.path_with_query is None ==> q@.path_with_query is None,
        q@.headers == q.headers && q@.options == q.options,
        q@.body == q.body && q@.trailers == q.trailers,
{
}

/// Setting a request's method sets just that, and fails exactly for an unknown request.
pub proof fn law_request_set_method_sets_it<B, F, I>(
    h: &mut WasiHttpHost<B, F, I>,
    rep: u32,
    method: Method,
    r: Result<(), ()>,
    other: u32,
)
    requires
        call_ensures(WasiHttpHost::<B, F, I>::request_set_method, (h, rep, method), r),
    ensures
        r is Ok <==> old(h)@.requests.items.contains_key(rep),
        r is Ok ==> final(h)@.requests.items.contains_key(rep) && final(h)@.requests.items[rep] == (RequestView { method: method@, ..old(h)@.requests.items[rep] }),
        r is Err ==> final(h)@ == old(h)@,
        other != rep ==> final(h)@.requests.lookup(other) == old(h)@.requests.lookup(other),
        final(h)@.fields == old(h)@.fields,
        final(h)@.responses == old(h)@.responses,
        final(h)@.transport == old(h)@.transport,
{
}

/// Setting a request's scheme sets just that, and fails exactly for an unknown request.
pub proof fn law_request_set_scheme_sets_it<B, F, I>(
    h: &mut WasiHttpHost<B, F, I>,
    rep: u32,
    scheme: Option<Scheme>,
    r: Result<(), ()>,
    other: u32,
)
    requires
        call_ensures(WasiHttpHost::<B, F, I>::request_set_scheme, (h, rep, scheme), r),
    ensures
        r is Ok <==> old(h)@.requests.items.contains_key(rep),
        r is Ok ==> final(h)@.requests.items.contains_key(rep) && final(h)@.requests.items[rep] == (RequestView { scheme: match scheme {
            Some(s) => Some(s@),
            None => None,
        }, ..old(h)@.requests.items[rep] }),
        r is Err ==> final(h)@ == old(h)@,
        other != rep ==> final(h)@.requests.lookup(other) == old(h)@.requests.lookup(other),
        final(h)@.fields == old(h)@.fields,
        final(h)@.responses == old(h)@.responses,
        final(h)@.transport == old(h)@.transport,
{
}

/// Setting a request's authority sets just that, and fails exactly for an unknown request.
pub proof fn law_request_set_authority_sets_it<B, F, I>(
    h: &mut WasiHttpHost<B, F, I>,
    rep: u32,
    authority: Option<String>,
    r: Result<(), ()>,
    other: u32,
)
    requires
        call_ensures(WasiHttpHost::<B, F, I>::request_set_authority, (h, rep, authority), r),
    ensures
        r is Ok <==> old(h)@.requests.items.contains_key(rep),
        r is Ok ==> final(h)@.requests.items.contains_key(rep) && final(h)@.requests.items[rep] == (RequestView { authority: match authority {
            Some(s) => Some(s@),
            None => None,
        }, ..old(h)@.requests.items[rep] }),
        r is Err ==> final(h)@ == old(h)@,
        other != rep ==> final(h)@.requests.lookup(other) == old(h)@.requests.lookup(other),
        final(h)@.fields == old(h)@.fields,
        final(h)@.responses == old(h)@.responses,
        final(h)@.transport == old(h)@.transport,
{
}

/// Setting a request's path sets just that, and fails exactly for an unknown request.
pub proof fn law_request_set_path_with_query_sets_it<B, F, I>(
    h: &mut WasiHttpHost<B, F, I>,
    rep: u32,
    path_with_query: Option<String>,
    r: Result<(), ()>,
    other: u32,
)
    requires
        call_ensures(WasiHttpHost::<B, F, I>::request_set_path_with_query, (h, rep, path_with_query), r),
    ensures
        r is Ok <==> old(h)@.requests.items.contains_key(rep),
        r is Ok ==> final(h)@.requests.items.contains_key(rep) && final(h)@.requests.items[rep] == (RequestView { path_with_query: match path_with_query {
            Some(s) => Some(s@),
            None => None,
        }, ..old(h)@.requests.items[rep] }),
        r is Err ==> final(h)@ == old(h)@,
        other != rep ==> final(h)@.requests.lookup(other) == old(h)@.requests.lookup(other),
        final(h)@.fields == old(h)@.fields,
        final(h)@.responses == old(h)@.responses,
        final(h)@.transport == old(h)@.transport,
{
}

/// A response takes every status from 100 to 599 and no other.
pub proof fn law_status_range<B, F, I>(
    h: &mut WasiHttpHost<B, F, I>,
    rep: u32,
    status_code: u16,
    r: Result<(), ()>,
)
    requires
        call_ensures(WasiHttpHost::<B, F, I>::response_set_status_code, (h, rep, status_code), r),
    ensures
        r is Ok <==> old(h)@.responses.items.contains_key(rep) && 100 <= status_code && status_code
            < 600,
        r is Ok ==> final(h)@.responses.items.contains_key(rep) && final(h)@.responses.items[rep] == (ResponseView { status_code, ..old(h)@.responses.items[rep] }),
        r is Err ==> final(h)@ == old(h)@,
{
}

/// A response's status is the one that it has, 200 where there is no response.
pub proof fn law_status_is_given<B, F, I>(h: &mut WasiHttpHost<B, F, I>, rep: u32, code: u16)
    requires
        call_ensures(WasiHttpHost::<B, F, I>::response_get_status_code, (h, rep), code),
    ensures
        old(h)@.responses.items.contains_key(rep) ==> code
            == old(h)@.responses.items[rep].status_code,
        !old(h)@.responses.items.contains_key(rep) ==> code == 200,
        final(h)@ == old(h)@,
{
}

/// An append puts its field behind the others of open fields; immutable and unknown
/// fields stay as they are.
pub proof fn law_append_puts_the_field_last<B, F, I>(
    h: &mut WasiHttpHost<B, F, I>,
    rep: u32,
    name: String,
    value: Vec<u8>,
    r: Result<(), HeaderError>,
)
    requires
        call_ensures(WasiHttpHost::<B, F, I>::fields_append, (h, rep, name, value), r),
    ensures
        r is Ok <==> old(h)@.fields.items.contains_key(rep)
            && !old(h)@.fields.items[rep].immutable,
        r is Ok ==> final(h)@.fields.items.contains_key(rep) && final(h)@.fields.items[rep].entries == old(h)@.fields.items[rep].entries.push((name@, value@)),
        r matches Err(e) ==> e is Immutable && final(h)@ == old(h)@,
{
}

/// Setting a name gives it just these values, behind the fields of other names.
pub proof fn law_set_replaces_the_name<B, F, I>(
    h: &mut WasiHttpHost<B, F, I>,
    rep: u32,
    name: String,
    value: Vec<Vec<u8>>,
    r: Result<(), HeaderError>,
)
    requires
        call_ensures(WasiHttpHost::<B, F, I>::fields_set, (h, rep, name, value), r),
    ensures
        r is Ok <==> old(h)@.fields.items.contains_key(rep)
            && !old(h)@.fields.items[rep].immutable,
        r is Ok ==> final(h)@.fields.items.contains_key(rep) && values_of(
            final(h)@.fields.items[rep].entries,
            name@,
        ) == value_views(value@) && without(final(h)@.fields.items[rep].entries, name@) == without(
            old(h)@.fields.items[rep].entries,
            name@,
        ),
        r matches Err(e) ==> e is Immutable && final(h)@ == old(h)@,
{
    if r is Ok {
        crate::fields::law_get_after_set(
            old(h)@.fields.items[rep].entries,
            name@,
            value_views(value@),
        );
        lemma_set_keeps_other_names(
            old(h)@.fields.items[rep].entries,
            name@,
            value_views(value@),
        );
    }
}

/// Fields of one name behind others do not count among the others.
proof fn lemma_set_keeps_other_names(
    entries: Seq<FieldView>,
    name: Seq<char>,
    values: Seq<Seq<u8>>,
)
    ensures
        without(without(entries, name) + fields_for(name, values), name) == without(entries, name),
    decreases entries.len() + values.len(),
{
    let kept = without(entries, name);
    if values.len() > 0 {
        let front = values.drop_last();
        lemma_set_keeps_other_names(entries, name, front);
        let e = (name, values.last());
        assert(fields_for(name, values) =~= fields_for(name, front).push(e));
        assert(kept + fields_for(name, values) =~= (kept + fields_for(name, front)).push(e));
        crate::fields::law_fields_keep_their_order(kept + fields_for(name, front), e, name);
    } else {
        assert(kept + fields_for(name, values) =~= kept);
        if entries.len() > 0 {
            let front = entries.drop_last();
            let e = entries.last();
            lemma_set_keeps_other_names(front, name, values);
            assert(without(front, name) + fields_for(name, values) =~= without(front, name));
            assert(entries =~= front.push(e));
            crate::fields::law_fields_keep_their_order(front, e, name);
            crate::fields::law_fields_keep_their_order(without(front, name), e, name);
        } else {
            assert(entries =~= seq![]);
            crate::fields::law_fields_keep_their_order(entries, (name, seq![]), name);
        }
    }
}

/// Deleting a name removes its fields and keeps the others.
pub proof fn law_delete_removes_the_fields<B, F, I>(
    h: &mut WasiHttpHost<B, F, I>,
    rep: u32,
    name: String,
    r: Result<(), HeaderError>,
)
    requires
        call_ensures(WasiHttpHost::<B, F, I>::fields_delete, (h, rep, name), r),
    ensures
        r is Ok <==> old(h)@.fields.items.contains_key(rep)
            && !old(h)@.fields.items[rep].immutable,
        r is Ok ==> final(h)@.fields.items.contains_key(rep) && !has_name(
            final(h)@.fields.items[rep].entries,
            name@,
        ) && final(h)@.fields.items[rep].entries == without(
            old(h)@.fields.items[rep].entries,
            name@,
        ),
        r matches Err(e) ==> e is Immutable && final(h)@ == old(h)@,
{
    if r is Ok {
        crate::fields::law_delete_removes_the_name(old(h)@.fields.items[rep].entries, name@);
    }
}

/// The values of a name are those of its fields, in order.
pub proof fn law_get_gives_the_values<B, F, I>(
    h: &mut WasiHttpHost<B, F, I>,
    rep: u32,
    name: String,
    values: Vec<Vec<u8>>,
)
    requires
        call_ensures(WasiHttpHost::<B, F, I>::fields_get, (h, rep, name), values),
    ensures
        old(h)@.fields.items.contains_key(rep) ==> value_views(values@) == values_of(
            old(h)@.fields.items[rep].entries,
            name@,
        ),
        final(h)@ == old(h)@,
{
}

/// Setting the connect timeout sets just that one, on open options alone.
pub proof fn law_connect_timeout_is_set<B, F, I>(
    h: &mut WasiHttpHost<B, F, I>,
    rep: u32,
    duration: Option<u64>,
    r: Result<(), RequestOptionsError>,
)
    requires
        call_ensures(WasiHttpHost::<B, F, I>::options_set_connect_timeout, (h, rep, duration), r),
    ensures
        r is Ok <==> old(h)@.options.items.contains_key(rep)
            && !old(h)@.options.items[rep].immutable,
        r is Ok ==> final(h)@.options.items.contains_key(rep) && final(h)@.options.items[rep] == (RequestOptionsData {
            connect_timeout: duration,
            ..old(h)@.options.items[rep]
        }),
        r matches Err(e) ==> e is Immutable && final(h)@ == old(h)@,
{
}

/// Setting the first-byte timeout sets just that one, on open options alone.
pub proof fn law_first_byte_timeout_is_set<B, F, I>(
    h: &mut WasiHttpHost<B, F, I>,
    rep: u32,
    duration: Option<u64>,
    r: Result<(), RequestOptionsError>,
)
    requires
        call_ensures(WasiHttpHost::<B, F, I>::options_set_first_byte_timeout, (h, rep, duration), r),
    ensures
        r is Ok <==> old(h)@.options.items.contains_key(rep)
            && !old(h)@.options.items[rep].immutable,
        r is Ok ==> final(h)@.options.items.contains_key(rep) && final(h)@.options.items[rep] == (RequestOptionsData {
            first_byte_timeout: duration,
            ..old(h)@.options.items[rep]
        }),
        r matches Err(e) ==> e is Immutable && final(h)@ == old(h)@,
{
}

/// Setting the between-bytes timeout sets just that one, on open options alone.
pub proof fn law_between_bytes_timeout_is_set<B, F, I>(
    h: &mut WasiHttpHost<B, F, I>,
    rep: u32,
    duration: Option<u64>,
    r: Result<(), RequestOptionsError>,
)
    requires
        call_ensures(WasiHttpHost::<B, F, I>::options_set_between_bytes_timeout, (h, rep, duration), r),
    ensures
        r is Ok <==> old(h)@.options.items.contains_key(rep)
            && !old(h)@.options.items[rep].immutable,
        r is Ok ==> final(h)@.options.items.contains_key(rep) && final(h)@.options.items[rep] == (RequestOptionsData {
            between_bytes_timeout: duration,
            ..old(h)@.options.items[rep]
        }),
        r matches Err(e) ==> e is Immutable && final(h)@ == old(h)@,
{
}

} // verus!
