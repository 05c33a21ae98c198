//! The head frames of the streaming transport.
//!
//! A request goes out as a head, a `\n`-separated text of a request line and
//! `name: value` lines, and then its body. A response comes back as a head, a
//! status line and `name: value` lines, and then its body. Three reserved lines
//! ride the heads:
//!
//! - `x-hellohq-request-options: connect=<ns>;first-byte=<ns>;between-bytes=<ns>`
//!   carries the timeouts that are set, for the caller to enforce.
//! - `x-hellohq-trailers: <name>=<hex>;...` reports the response's trailers.
//! - `x-hellohq-request-trailers: <name>=<hex>;...` carries the request's
//!   trailers.
//!
//! Field values are written in hexadecimal there, so arbitrary bytes survive the
//! delimiters.
use crate::api::text_bytes;
use crate::digits::{
    decimal, decimal_text, decimal_u16, law_decimal_round_trip, lemma_decimal_value, parse_u16,
};
use crate::fields::{entry_views, FieldView};
use crate::hex::{hex_bytes, hex_decode, hex_encode, hex_text, hex_value, law_hex_round_trip,
    law_hex_text_is_digits};
use crate::text::{
    chars_of, decode_lossy, eq_ignoring_case, find, is_white, lemma_find, lower,
    same_ignoring_case, split, split_chars, split_once, split_once_chars, text_of, trim, trim_chars, trim_start,
    trim_start_chars, utf8_lossy, views,
};
use crate::wasi_http::{ErrorCode, ErrorCodeView, RequestOptionsData};
use vstd::prelude::*;
use vstd::utf8::encode_utf8;

verus! {

/// The reserved line with the request's timeouts.
pub const REQUEST_OPTIONS_HEAD_KEY: &'static str = "x-hellohq-request-options";

/// The reserved line with the response's trailers.
pub const TRAILERS_HEAD_KEY: &'static str = "x-hellohq-trailers";

/// The reserved line with the request's trailers.
pub const REQUEST_TRAILERS_HEAD_KEY: &'static str = "x-hellohq-request-trailers";

/// The parts with `sep` between each two of them.
pub open spec fn join(parts: Seq<Seq<char>>, sep: char) -> Seq<char>
    decreases parts.len(),
{
    if parts.len() == 0 {
        seq![]
    } else if parts.len() == 1 {
        parts[0]
    } else {
        parts[0] + seq![sep] + join(parts.drop_first(), sep)
    }
}

/// The views of a list of texts.
pub open spec fn string_views(parts: Seq<String>) -> Seq<Seq<char>> {
    parts.map_values(|p: String| p@)
}

/// Joins texts with a separator.
fn join_strings(parts: &[String], sep: char) -> (out: String)
    ensures
        out@ == join(string_views(parts@), sep),
{
    let mut out = String::new();
    let mut i: usize = 0;
    let ghost all = string_views(parts@);
    assert(all.skip(0) =~= all);
    assert(out@ + join(all, sep) =~= join(all, sep));
    while i < parts.len()
        invariant
            i <= parts.len(),
            all == string_views(parts@),
            out@ + join(all.skip(i as int), sep) == join(all, sep),
        decreases parts.len() - i,
    {
        let ghost before = out@;
        let ghost rest = all.skip(i as int);
        out.append(parts[i].as_str());
        assert(rest[0] == parts@[i as int]@);
        assert(rest.drop_first() =~= all.skip(i + 1));
        if i + 1 < parts.len() {
            out.push(sep);
            proof {
                let tail = join(all.skip(i + 1), sep);
                assert(join(rest, sep) == rest[0] + seq![sep] + tail);
                assert(out@ + tail =~= before + (rest[0] + seq![sep] + tail));
            }
        } else {
            assert(all.skip(i + 1) =~= Seq::empty());
            assert(out@ + join(all.skip(i + 1), sep) =~= before + rest[0]);
        }
        i += 1;
    }
    assert(all.skip(all.len() as int) =~= Seq::empty());
    assert(out@ + Seq::<char>::empty() =~= out@);
    out
}

// ── Request options ─────────────────────────────────────────────────────────

/// One timeout in the options line, where it is set.
pub open spec fn timeout_part(label: Seq<char>, ns: Option<u64>) -> Seq<Seq<char>> {
    match ns {
        Some(n) => seq![label + decimal(n as nat)],
        None => seq![],
    }
}

/// The timeouts that are set, in their order.
pub open spec fn timeout_parts(o: RequestOptionsData) -> Seq<Seq<char>> {
    timeout_part("connect="@, o.connect_timeout) + timeout_part(
        "first-byte="@,
        o.first_byte_timeout,
    ) + timeout_part("between-bytes="@, o.between_bytes_timeout)
}

/// The options line; none where no timeout is set.
pub open spec fn options_line(o: RequestOptionsData) -> Option<Seq<char>> {
    if timeout_parts(o).len() == 0 {
        None
    } else {
        Some(REQUEST_OPTIONS_HEAD_KEY@ + ": "@ + join(timeout_parts(o), ';'))
    }
}

/// A labelled number.
fn labelled(label: &str, ns: u64) -> (s: String)
    ensures
        s@ == label@ + decimal(ns as nat),
{
    let number = decimal_text(ns);
    String::from_str(label).concat(number.as_str())
}

/// The options line for `opts`, or `None` where no timeout is set.
pub fn format_request_options_line(opts: &RequestOptionsData) -> (line: Option<String>)
    ensures
        match line {
            Some(l) => options_line(*opts) == Some(l@),
            None => options_line(*opts) is None,
        },
{
    let mut parts: Vec<String> = Vec::new();
    let ghost p1 = timeout_part("connect="@, opts.connect_timeout);
    let ghost p2 = timeout_part("first-byte="@, opts.first_byte_timeout);
    let ghost p3 = timeout_part("between-bytes="@, opts.between_bytes_timeout);
    if let Some(ns) = opts.connect_timeout {
        parts.push(labelled("connect=", ns));
    }
    assert(string_views(parts@) =~= p1);
    if let Some(ns) = opts.first_byte_timeout {
        parts.push(labelled("first-byte=", ns));
    }
    assert(string_views(parts@) =~= p1 + p2);
    if let Some(ns) = opts.between_bytes_timeout {
        parts.push(labelled("between-bytes=", ns));
    }
    assert(string_views(parts@) =~= p1 + p2 + p3);
    if parts.len() == 0 {
        return None;
    }
    let joined = join_strings(parts.as_slice(), ';');
    Some(String::from_str(REQUEST_OPTIONS_HEAD_KEY).concat(": ").concat(joined.as_str()))
}

// ── Trailer lines ───────────────────────────────────────────────────────────

/// A trailer field as it is written.
pub open spec fn trailer_text(e: FieldView) -> Seq<char> {
    e.0 + seq!['='] + hex_text(e.1)
}

/// The written forms of trailer fields.
pub open spec fn trailer_texts(entries: Seq<FieldView>) -> Seq<Seq<char>> {
    entries.map_values(|e: FieldView| trailer_text(e))
}

/// The value of a trailer line.
pub open spec fn trailers_value(entries: Seq<FieldView>) -> Seq<char> {
    join(trailer_texts(entries), ';')
}

/// The request-trailers line; none where there are no trailers.
pub open spec fn request_trailers_line(entries: Seq<FieldView>) -> Option<Seq<char>> {
    if entries.len() == 0 {
        None
    } else {
        Some(REQUEST_TRAILERS_HEAD_KEY@ + ": "@ + trailers_value(entries))
    }
}

/// The trailer field that one piece of a line names; none where the piece is
/// blank, has no `=`, or its value is no hexadecimal text.
pub open spec fn trailer_field(piece: Seq<char>) -> Option<FieldView> {
    match split_once(trim(piece), '=') {
        Some((name, hex)) => match hex_bytes(trim(hex)) {
            Some(bytes) => Some((trim(name), bytes)),
            None => None,
        },
        None => None,
    }
}

/// The trailer fields of a line's value: those of its `;`-separated pieces,
/// malformed ones left out.
pub open spec fn trailer_fields(value: Seq<char>) -> Seq<FieldView> {
    split(value, ';').filter_map(|piece: Seq<char>| trailer_field(piece))
}

/// Reads the value of a trailers line; malformed pairs are skipped.
pub fn parse_trailers_line(value: &str) -> (out: Vec<(String, Vec<u8>)>)
    ensures
        entry_views(out@) == trailer_fields(value@),
{
    let mut out: Vec<(String, Vec<u8>)> = Vec::new();
    let pieces = split_chars(chars_of(value).as_slice(), ';');
    let ghost all = split(value@, ';');
    let ghost read = |piece: Seq<char>| trailer_field(piece);
    let mut i: usize = 0;
    assert(entry_views(out@) =~= all.take(0).filter_map(read));
    while i < pieces.len()
        invariant
            i <= pieces.len(),
            all == views(pieces@),
            all == split(value@, ';'),
            read == (|piece: Seq<char>| trailer_field(piece)),
            entry_views(out@) == all.take(i as int).filter_map(read),
        decreases pieces.len() - i,
    {
        let ghost before = out@;
        let ghost kept = all.take(i as int).filter_map(read);
        proof {
            all.lemma_filter_map_take_succ(read, i as int);
            assert(all[i as int] == pieces@[i as int]@);
        }
        let pair = trim_chars(pieces[i].as_slice());
        if let Some((name, hex)) = split_once_chars(pair.as_slice(), '=') {
            let hex = text_of(trim_chars(hex.as_slice()).as_slice());
            if let Some(bytes) = hex_decode(hex.as_str()) {
                let name = text_of(trim_chars(name.as_slice()).as_slice());
                let ghost field = (name@, bytes@);
                out.push((name, bytes));
                proof {
                    assert(entry_views(out@) =~= entry_views(before).push(field));
                    assert(read(all[i as int]) == Some(field));
                    assert(kept + seq![field] =~= kept.push(field));
                }
            }
        }
        assert(kept + Seq::<FieldView>::empty() =~= kept);
        i += 1;
    }
    assert(all.take(all.len() as int) =~= all);
    out
}

/// The request-trailers line for `entries`, or `None` where there are none.
pub fn format_request_trailers_line(entries: &[(String, Vec<u8>)]) -> (line: Option<String>)
    ensures
        match line {
            Some(l) => request_trailers_line(entry_views(entries@)) == Some(l@),
            None => request_trailers_line(entry_views(entries@)) is None,
        },
{
    if entries.len() == 0 {
        return None;
    }
    let mut parts: Vec<String> = Vec::new();
    let ghost want = trailer_texts(entry_views(entries@));
    let mut i: usize = 0;
    while i < entries.len()
        invariant
            i <= entries.len(),
            want == trailer_texts(entry_views(entries@)),
            string_views(parts@) == want.take(i as int),
        decreases entries.len() - i,
    {
        let ghost before = parts@;
        let hex = hex_encode(entries[i].1.as_slice());
        let mut part = entries[i].0.clone();
        part.push('=');
        part.append(hex.as_str());
        proof {
            let e = entry_views(entries@)[i as int];
            assert(part@ =~= trailer_text(e));
            assert(want[i as int] == trailer_text(e));
        }
        let ghost p = part@;
        parts.push(part);
        proof {
            assert(string_views(parts@) =~= string_views(before).push(p));
            assert(want.take(i + 1) =~= want.take(i as int).push(want[i as int]));
        }
        i += 1;
    }
    assert(want.take(want.len() as int) =~= want);
    let joined = join_strings(parts.as_slice(), ';');
    Some(String::from_str(REQUEST_TRAILERS_HEAD_KEY).concat(": ").concat(joined.as_str()))
}

// ── Request head ────────────────────────────────────────────────────────────

/// A header line with the line break before it.
pub open spec fn header_line(e: FieldView) -> Seq<char> {
    seq!['\n'] + e.0 + ": "@ + utf8_lossy(e.1)
}

/// The header lines of a list of fields.
pub open spec fn header_lines(entries: Seq<FieldView>) -> Seq<char>
    decreases entries.len(),
{
    if entries.len() == 0 {
        seq![]
    } else {
        header_lines(entries.drop_last()) + header_line(entries.last())
    }
}

/// The head of a request.
pub open spec fn request_head(
    method: Seq<char>,
    scheme: Seq<char>,
    authority: Seq<char>,
    path: Seq<char>,
    entries: Seq<FieldView>,
    options: Option<Seq<char>>,
) -> Seq<char> {
    method + " "@ + scheme + "://"@ + authority + path + header_lines(entries) + (match options {
        Some(line) => seq!['\n'] + line,
        None => seq![],
    })
}

/// Writes the head of a request.
pub fn format_request_head(
    method: &str,
    scheme: &str,
    authority: &str,
    path: &str,
    entries: &[(String, Vec<u8>)],
    options: Option<String>,
) -> (head: String)
    ensures
        head@ == request_head(
            method@,
            scheme@,
            authority@,
            path@,
            entry_views(entries@),
            crate::wasi_http::text_view(options),
        ),
{
    let mut head = String::from_str(method).concat(" ").concat(scheme).concat("://").concat(
        authority,
    ).concat(path);
    let ghost line = head@;
    let ghost all = entry_views(entries@);
    let mut i: usize = 0;
    assert(line + header_lines(all.take(0)) =~= line);
    while i < entries.len()
        invariant
            i <= entries.len(),
            all == entry_views(entries@),
            head@ == line + header_lines(all.take(i as int)),
        decreases entries.len() - i,
    {
        let ghost before = head@;
        let value = decode_lossy(entries[i].1.as_slice());
        head.push('\n');
        head.append(entries[i].0.as_str());
        head.append(": ");
        head.append(value.as_str());
        proof {
            let e = all[i as int];
            assert(head@ =~= before + header_line(e));
            assert(all.take(i + 1).drop_last() =~= all.take(i as int));
            assert(all.take(i + 1).last() == e);
            assert(before + header_line(e) =~= line + (header_lines(all.take(i as int))
                + header_line(e)));
        }
        i += 1;
    }
    assert(all.take(all.len() as int) =~= all);
    let ghost before = head@;
    match options {
        Some(text) => {
            head.push('\n');
            head.append(text.as_str());
            assert(head@ =~= before + (seq!['\n'] + text@));
        },
        None => {
            assert(before + Seq::<char>::empty() =~= before);
        },
    }
    head
}

// ── Response head ───────────────────────────────────────────────────────────

/// What the head of a response says.
pub struct ResponseHead {
    pub status_code: u16,
    pub headers: Vec<(String, Vec<u8>)>,
    /// The trailers that the caller reported, if it did.
    pub trailers: Option<Vec<(String, Vec<u8>)>>,
}

/// A response head as a mathematical value.
#[verifier::ext_equal]
pub struct ResponseHeadView {
    pub status_code: u16,
    pub headers: Seq<FieldView>,
    pub trailers: Option<Seq<FieldView>>,
}

impl View for ResponseHead {
    type V = ResponseHeadView;

    open spec fn view(&self) -> ResponseHeadView {
        ResponseHeadView {
            status_code: self.status_code,
            headers: entry_views(self.headers@),
            trailers: match self.trailers {
                Some(t) => Some(entry_views(t@)),
                None => None,
            },
        }
    }
}

/// The name and value of a header line; none where the line has no `:`.
pub open spec fn name_and_value(line: Seq<char>) -> Option<(Seq<char>, Seq<char>)> {
    match split_once(line, ':') {
        Some((name, value)) => Some((trim(name), trim_start(value))),
        None => None,
    }
}

/// Whether a name is that of the reserved trailers line.
pub open spec fn is_trailers_key(name: Seq<char>) -> bool {
    same_ignoring_case(name, TRAILERS_HEAD_KEY@)
}

/// The header field of a line; none for the reserved line.
pub open spec fn header_field(line: Seq<char>) -> Option<FieldView> {
    match name_and_value(line) {
        Some((name, value)) => if is_trailers_key(name) {
            None
        } else {
            Some((name, encode_utf8(value)))
        },
        None => None,
    }
}

/// The trailers that the last reserved line of a head reports.
pub open spec fn reported_trailers(lines: Seq<Seq<char>>) -> Option<Seq<FieldView>>
    decreases lines.len(),
{
    if lines.len() == 0 {
        None
    } else {
        match name_and_value(lines.last()) {
            Some((name, value)) => if is_trailers_key(name) {
                Some(trailer_fields(value))
            } else {
                reported_trailers(lines.drop_last())
            },
            None => reported_trailers(lines.drop_last()),
        }
    }
}

/// What the text of a head says; nothing where its status line holds no number.
pub open spec fn response_head(head: Seq<char>) -> Option<ResponseHeadView> {
    let lines = split(head, '\n');
    match decimal_u16(trim(lines[0])) {
        Some(status_code) => Some(
            ResponseHeadView {
                status_code,
                headers: lines.drop_first().filter_map(|line: Seq<char>| header_field(line)),
                trailers: reported_trailers(lines.drop_first()),
            },
        ),
        None => None,
    }
}

/// The text that Rust's `Debug` format gives for a text.
pub uninterp spec fn debug_text(s: Seq<char>) -> Seq<char>;

/// The `Debug` format of `str`: the text in quotes with its special characters
/// escaped. What is escaped, and how, is left to the name.
#[verifier::external_body]
fn format_debug(s: &str) -> (out: String)
    ensures
        out@ == debug_text(s@),
{
    format!("{s:?}")
}

/// The error of a head whose status line holds no number.
pub open spec fn malformed_status(head: Seq<char>) -> ErrorCodeView {
    ErrorCodeView::InternalError(
        Some("wasi:http handler: malformed response status line "@ + debug_text(split(head, '\n')[0])),
    )
}

/// Reads the text of a response head.
pub fn parse_response_head(head: &str) -> (r: Result<ResponseHead, ErrorCode>)
    ensures
        match r {
            Ok(h) => response_head(head@) == Some(h@),
            Err(e) => response_head(head@) is None && e@ == malformed_status(head@),
        },
{
    let lines = split_chars(chars_of(head).as_slice(), '\n');
    let ghost all = split(head@, '\n');
    let ghost rest = all.drop_first();
    assert(all[0] == lines@[0]@);
    let status_code: u16 = match parse_u16(trim_chars(lines[0].as_slice()).as_slice()) {
        Some(code) => code,
        None => {
            let quoted = format_debug(text_of(lines[0].as_slice()).as_str());
            return Err(
                ErrorCode::InternalError(
                    Some(
                        String::from_str(
                            "wasi:http handler: malformed response status line ",
                        ).concat(quoted.as_str()),
                    ),
                ),
            );
        },
    };
    let mut headers: Vec<(String, Vec<u8>)> = Vec::new();
    let mut trailers: Option<Vec<(String, Vec<u8>)>> = None;
    let ghost read = |line: Seq<char>| header_field(line);
    let mut i: usize = 1;
    assert(entry_views(headers@) =~= rest.take(0).filter_map(read));
    while i < lines.len()
        invariant
            1 <= i <= lines.len(),
            all == views(lines@),
            rest == all.drop_first(),
            read == (|line: Seq<char>| header_field(line)),
            entry_views(headers@) == rest.take(i - 1).filter_map(read),
            reported_trailers(rest.take(i - 1)) == (match trailers {
                Some(t) => Some(entry_views(t@)),
                None => None,
            }),
        decreases lines.len() - i,
    {
        let ghost before = headers@;
        let ghost kept = rest.take(i - 1).filter_map(read);
        proof {
            rest.lemma_filter_map_take_succ(read, i - 1);
            assert(rest[i - 1] == lines@[i as int]@);
            assert(rest.take(i - 1 + 1) =~= rest.take(i as int));
            assert(rest.take(i as int).drop_last() =~= rest.take(i - 1));
            assert(rest.take(i as int).last() == rest[i - 1]);
            assert(kept + Seq::<FieldView>::empty() =~= kept);
        }
        if let Some((name, value)) = split_once_chars(lines[i].as_slice(), ':') {
            let name = text_of(trim_chars(name.as_slice()).as_slice());
            let value = text_of(trim_start_chars(value.as_slice()).as_slice());
            if eq_ignoring_case(name.as_str(), TRAILERS_HEAD_KEY) {
                trailers = Some(parse_trailers_line(value.as_str()));
            } else {
                let ghost field = (name@, encode_utf8(value@));
                headers.push((name, text_bytes(value.as_str())));
                proof {
                    assert(entry_views(headers@) =~= entry_views(before).push(field));
                    assert(read(rest[i - 1]) == Some(field));
                    assert(kept + seq![field] =~= kept.push(field));
                }
            }
        }
        i += 1;
    }
    assert(rest.take(rest.len() as int) =~= rest);
    Ok(ResponseHead { status_code, headers, trailers })
}

// ── Laws ────────────────────────────────────────────────────────────────────

/// Whether a text holds a character.
pub open spec fn holds(s: Seq<char>, c: char) -> bool {
    exists|i: int| 0 <= i < s.len() && s[i] == c
}

/// Whether a trailer name survives the line format: no delimiter in it and no
/// white space at its ends.
pub open spec fn writable_name(name: Seq<char>) -> bool {
    &&& !holds(name, ';')
    &&& !holds(name, '=')
    &&& name.len() > 0 ==> !is_white(name[0]) && !is_white(name.last())
}

proof fn lemma_trim_keeps(s: Seq<char>)
    requires
        s.len() > 0 ==> !is_white(s[0]) && !is_white(s.last()),
    ensures
        trim(s) == s,
{
}

/// Cutting a joined text gives its parts back, where none of them holds the
/// separator.
pub proof fn lemma_split_of_join(parts: Seq<Seq<char>>, sep: char)
    requires
        parts.len() > 0,
        forall|i: int| 0 <= i < parts.len() ==> !holds(#[trigger] parts[i], sep),
    ensures
        split(join(parts, sep), sep) == parts,
    decreases parts.len(),
{
    let text = join(parts, sep);
    let first = parts[0];
    assert(!holds(first, sep));
    if parts.len() == 1 {
        assert forall|i: int| 0 <= i < text.len() implies text[i] != sep by {}
        lemma_find(text, sep, text.len() as int);
        assert(split(text, sep) =~= parts);
    } else {
        let rest = parts.drop_first();
        assert forall|i: int| 0 <= i < rest.len() implies !holds(#[trigger] rest[i], sep) by {
            assert(rest[i] == parts[i + 1]);
        }
        lemma_split_of_join(rest, sep);
        let k = first.len() as int;
        assert forall|i: int| 0 <= i < k implies text[i] != sep by {
            assert(text[i] == first[i]);
        }
        assert(text[k] == sep);
        lemma_find(text, sep, k);
        assert(text.take(k) =~= first);
        assert(text.skip(k + 1) =~= join(rest, sep));
        assert(split(text, sep) =~= seq![first] + rest);
        assert(parts =~= seq![first] + rest);
    }
}

#[verifier::rlimit(40)]
proof fn lemma_trailer_field_of_text(e: FieldView)
    requires
        writable_name(e.0),
    ensures
        trailer_field(trailer_text(e)) == Some(e),
        !holds(trailer_text(e), ';'),
{
    let text = trailer_text(e);
    let hex = hex_text(e.1);
    law_hex_round_trip(e.1);
    law_hex_text_is_digits(e.1);
    let k = e.0.len() as int;
    assert(text[k] == '=');
    assert forall|i: int| 0 <= i < k implies text[i] != '=' by {
        assert(text[i] == e.0[i]);
    }
    assert forall|i: int| 0 <= i < text.len() implies text[i] != ';' by {
        if i < k {
            assert(text[i] == e.0[i]);
        } else if i > k {
            assert(text[i] == hex[i - k - 1]);
            assert(hex_value(hex[i - k - 1]) is Some);
        }
    }
    assert(!is_white(text[0]) && !is_white(text.last())) by {
        if hex.len() > 0 {
            assert(text.last() == hex.last());
            assert(hex_value(hex[hex.len() - 1]) is Some);
        }
        if k > 0 {
            assert(text[0] == e.0[0]);
        }
    }
    lemma_trim_keeps(text);
    lemma_find(text, '=', k);
    assert(text.take(k) =~= e.0);
    assert(text.skip(k + 1) =~= hex);
    if hex.len() > 0 {
        assert(hex_value(hex[0]) is Some && hex_value(hex[hex.len() - 1]) is Some);
    }
    lemma_trim_keeps(hex);
    lemma_trim_keeps(e.0);
}

proof fn lemma_filter_map_all<A, B>(s: Seq<A>, f: spec_fn(A) -> Option<B>, out: Seq<B>)
    requires
        s.len() == out.len(),
        forall|i: int| 0 <= i < s.len() ==> f(#[trigger] s[i]) == Some(out[i]),
    ensures
        s.filter_map(f) == out,
    decreases s.len(),
{
    if s.len() > 0 {
        let t = s.drop_last();
        assert forall|i: int| 0 <= i < t.len() implies f(#[trigger] t[i]) == Some(
            out.drop_last()[i],
        ) by {
            assert(t[i] == s[i]);
        }
        lemma_filter_map_all(t, f, out.drop_last());
        assert(f(s[s.len() - 1]) == Some(out[s.len() - 1]));
        assert(out.drop_last() + seq![out.last()] =~= out);
    } else {
        assert(s.filter_map(f) =~= out);
    }
}

/// Reading a trailer line gives back the fields that were written, whatever
/// bytes their values hold.
pub proof fn law_trailers_round_trip(entries: Seq<FieldView>)
    requires
        forall|i: int| 0 <= i < entries.len() ==> writable_name((#[trigger] entries[i]).0),
    ensures
        trailer_fields(trailers_value(entries)) == entries,
{
    let read = |piece: Seq<char>| trailer_field(piece);
    let parts = trailer_texts(entries);
    if entries.len() == 0 {
        let text = trailers_value(entries);
        assert(text =~= seq![]);
        assert(split(text, ';') =~= seq![text]);
        let one = seq![text];
        assert(trim(text) == text);
        assert(find(text, '=') == 0);
        assert(read(text) is None);
        assert(one.drop_last() =~= Seq::empty());
        assert(one.drop_last().filter_map(read) =~= Seq::<FieldView>::empty());
        assert(one.filter_map(read) =~= entries);
    } else {
        assert forall|i: int| 0 <= i < parts.len() implies !holds(#[trigger] parts[i], ';')
            && read(parts[i]) == Some(entries[i]) by {
            lemma_trailer_field_of_text(entries[i]);
        }
        lemma_split_of_join(parts, ';');
        lemma_filter_map_all(parts, read, entries);
    }
}

/// No options line is written where no timeout is set, and only there.
pub proof fn law_unset_options_write_nothing(o: RequestOptionsData)
    ensures
        options_line(o) is None <==> (o.connect_timeout is None && o.first_byte_timeout is None
            && o.between_bytes_timeout is None),
{
}

/// A head is refused exactly where its first line, trimmed, is no decimal 16-bit
/// number; else that number is the status, whichever it is.
pub proof fn law_only_the_status_line_is_refused(head: Seq<char>)
    ensures
        response_head(head) is None <==> decimal_u16(trim(split(head, '\n')[0])) is None,
        response_head(head) matches Some(h) ==> decimal_u16(trim(split(head, '\n')[0])) == Some(
            h.status_code,
        ),
{
}

/// A text that starts with a line has that line as its first piece, and the rest
/// behind it.
proof fn lemma_split_first_line(line: Seq<char>, rest: Seq<char>)
    requires
        !holds(line, '\n'),
    ensures
        split(line + seq!['\n'] + rest, '\n') == seq![line] + split(rest, '\n'),
        split(line, '\n') == seq![line],
{
    let text = line + seq!['\n'] + rest;
    let k = line.len() as int;
    assert forall|i: int| 0 <= i < k implies text[i] != '\n' && line[i] != '\n' by {
        assert(text[i] == line[i]);
        assert(!holds(line, '\n'));
    }
    assert(text[k] == '\n');
    lemma_find(text, '\n', k);
    lemma_find(line, '\n', k);
    assert(text.take(k) =~= line);
    assert(text.skip(k + 1) =~= rest);
}

/// The decimal text of a number is one trimmed line.
proof fn lemma_decimal_is_a_line(n: nat)
    ensures
        !holds(decimal(n), '\n'),
        trim(decimal(n)) == decimal(n),
{
    lemma_decimal_value(n);
    let d = decimal(n);
    assert forall|i: int| 0 <= i < d.len() implies d[i] != '\n' && !is_white(d[i]) by {
        assert(hex_value(d[i]) is Some);
    }
    lemma_trim_keeps(d);
}

/// Every 16-bit status is read: a head whose first line is the decimal text of a
/// number has that number as its status, whatever follows.
pub proof fn law_every_status_is_read(n: u16, rest: Seq<char>)
    ensures
        response_head(decimal(n as nat)) matches Some(h) && h.status_code == n && h.headers.len()
            == 0 && h.trailers is None,
        response_head(decimal(n as nat) + "\n"@ + rest) matches Some(h) && h.status_code == n,
{
    reveal_strlit("\n");
    let d = decimal(n as nat);
    lemma_decimal_is_a_line(n as nat);
    lemma_split_first_line(d, rest);
    law_decimal_round_trip(n);
    assert("\n"@ =~= seq!['\n']);
    let lines = split(d + "\n"@ + rest, '\n');
    assert(lines[0] == d);
    assert(split(d, '\n').drop_first() =~= Seq::empty());
    assert(Seq::<Seq<char>>::empty().filter_map(|line: Seq<char>| header_field(line))
        =~= Seq::<FieldView>::empty());
}

/// Whether a header survives the line format: its name is not empty, holds no
/// `:` and no line break, has no white space at its ends and is not the reserved
/// one; its value holds no line break and does not start with white space.
pub open spec fn writable_header(name: Seq<char>, value: Seq<char>) -> bool {
    &&& name.len() > 0 && !is_white(name[0]) && !is_white(name.last())
    &&& forall|i: int| 0 <= i < name.len() ==> #[trigger] name[i] != ':' && name[i] != '\n'
    &&& forall|i: int| 0 <= i < value.len() ==> #[trigger] value[i] != '\n'
    &&& value.len() > 0 ==> !is_white(value[0])
    &&& lower(name) != lower("x-hellohq-trailers"@)
}

/// A response head: the status and one line for each header.
pub open spec fn response_text(status: u16, headers: Seq<(Seq<char>, Seq<char>)>) -> Seq<char>
    decreases headers.len(),
{
    if headers.len() == 0 {
        decimal(status as nat)
    } else {
        response_text(status, headers.drop_last()) + "\n"@ + headers.last().0 + ": "@
            + headers.last().1
    }
}

/// A line behind a text is the last piece.
proof fn lemma_split_last_line(text: Seq<char>, line: Seq<char>)
    requires
        !holds(line, '\n'),
    ensures
        split(text + seq!['\n'] + line, '\n') == split(text, '\n').push(line),
    decreases text.len(),
{
    let whole = text + seq!['\n'] + line;
    let k = find(text, '\n') as int;
    lemma_find_is_first(text, '\n');
    if k >= text.len() {
        assert(!holds(text, '\n'));
        lemma_split_first_line(text, line);
        lemma_split_first_line(line, seq![]);
        assert(split(whole, '\n') =~= split(text, '\n').push(line));
    } else {
        let rest = text.skip(k + 1);
        lemma_split_last_line(rest, line);
        assert forall|i: int| 0 <= i < k implies whole[i] != '\n' by {
            assert(whole[i] == text[i]);
        }
        assert(whole[k] == '\n');
        lemma_find(whole, '\n', k);
        assert(whole.take(k) =~= text.take(k));
        assert(whole.skip(k + 1) =~= rest + seq!['\n'] + line);
        assert(split(whole, '\n') =~= split(text, '\n').push(line));
    }
}

/// `find` gives an occurrence, and none comes before it.
proof fn lemma_find_is_first(s: Seq<char>, c: char)
    ensures
        find(s, c) <= s.len(),
        find(s, c) < s.len() ==> s[find(s, c) as int] == c,
        forall|i: int| 0 <= i < find(s, c) ==> s[i] != c,
    decreases s.len(),
{
    if s.len() > 0 && s[0] != c {
        let t = s.drop_first();
        lemma_find_is_first(t, c);
        assert forall|i: int| 0 <= i < find(s, c) implies s[i] != c by {
            if i > 0 {
                assert(s[i] == t[i - 1]);
            }
        }
    }
}

/// A written header line is read as that header.
proof fn lemma_header_line_is_read(name: Seq<char>, value: Seq<char>)
    requires
        writable_header(name, value),
    ensures
        header_field(name + ": "@ + value) == Some((name, encode_utf8(value))),
        name_and_value(name + ": "@ + value) == Some((name, value)),
        !is_trailers_key(name),
        !holds(name + ": "@ + value, '\n'),
{
    reveal_strlit(": ");
    let line = name + ": "@ + value;
    let k = name.len() as int;
    assert forall|i: int| 0 <= i < k implies line[i] != ':' by {
        assert(line[i] == name[i]);
    }
    assert(line[k] == ':');
    assert(line[k + 1] == ' ');
    lemma_find(line, ':', k);
    assert(line.take(k) =~= name);
    lemma_trim_keeps(name);
    let after = line.skip(k + 1);
    assert(after =~= seq![' '] + value);
    assert(after.drop_first() =~= value);
    assert(trim_start(value) == value);
    assert(trim_start(after) == value);
    assert forall|i: int| 0 <= i < line.len() implies line[i] != '\n' by {
        if i < k {
            assert(line[i] == name[i]);
        } else if i >= k + 2 {
            assert(line[i] == value[i - k - 2]);
        }
    }
}

/// Reading a response head gives back the status and the headers that were
/// written, in order.
pub proof fn law_response_head_round_trip(status: u16, headers: Seq<(Seq<char>, Seq<char>)>)
    requires
        forall|i: int|
            0 <= i < headers.len() ==> writable_header(
                (#[trigger] headers[i]).0,
                headers[i].1,
            ),
    ensures
        response_head(response_text(status, headers)) == Some(
            ResponseHeadView {
                status_code: status,
                headers: Seq::new(
                    headers.len(),
                    |i: int| (headers[i].0, encode_utf8(headers[i].1)),
                ),
                trailers: None,
            },
        ),
    decreases headers.len(),
{
    let read = |line: Seq<char>| header_field(line);
    let want = Seq::new(headers.len(), |i: int| (headers[i].0, encode_utf8(headers[i].1)));
    let text = response_text(status, headers);
    if headers.len() == 0 {
        law_every_status_is_read(status, seq![]);
        assert(response_head(text)->0.headers =~= want);
    } else {
        let front = headers.drop_last();
        assert forall|i: int| 0 <= i < front.len() implies writable_header(
            (#[trigger] front[i]).0,
            front[i].1,
        ) by {
            assert(front[i] == headers[i]);
        }
        law_response_head_round_trip(status, front);
        let (name, value) = headers.last();
        assert(writable_header(headers[headers.len() - 1].0, headers[headers.len() - 1].1));
        lemma_header_line_is_read(name, value);
        let before = response_text(status, front);
        let line = name + ": "@ + value;
        reveal_strlit("\n");
        assert(text =~= before + seq!['\n'] + line);
        lemma_split_last_line(before, line);
        let lines = split(before, '\n');
        lemma_split_is_not_empty(before);
        assert(split(text, '\n') == lines.push(line));
        assert(lines.push(line)[0] == lines[0]);
        let rest = lines.drop_first();
        assert(lines.push(line).drop_first() =~= rest.push(line));
        assert(rest.push(line).drop_last() =~= rest);
        assert(rest.push(line).last() == line);
        assert(rest.push(line).filter_map(read) =~= rest.filter_map(read).push(
            (name, encode_utf8(value)),
        ));
        let old_want = Seq::new(front.len(), |i: int| (front[i].0, encode_utf8(front[i].1)));
        assert(want =~= old_want.push((name, encode_utf8(value))));
    }
}

proof fn lemma_split_is_not_empty(s: Seq<char>)
    ensures
        split(s, '\n').len() > 0,
{
}

/// The trailers that a head reports, by the line `x-hellohq-trailers`, are those
/// that were written there; the status and the headers before it stay, and the
/// line is no header.
pub proof fn law_reported_trailers_are_read(head: Seq<char>, entries: Seq<FieldView>)
    requires
        response_head(head) is Some,
        forall|i: int| 0 <= i < entries.len() ==> writable_name((#[trigger] entries[i]).0),
        forall|i: int| 0 <= i < entries.len() ==> !holds((#[trigger] entries[i]).0, '\n'),
    ensures
        response_head(head + "\nx-hellohq-trailers: "@ + trailers_value(entries)) == Some(
            ResponseHeadView {
                status_code: response_head(head)->0.status_code,
                headers: response_head(head)->0.headers,
                trailers: Some(entries),
            },
        ),
{
    reveal_strlit("\nx-hellohq-trailers: ");
    reveal_strlit("x-hellohq-trailers");
    reveal_strlit(": ");
    let read = |line: Seq<char>| header_field(line);
    let name = "x-hellohq-trailers"@;
    let value = trailers_value(entries);
    let line = name + ": "@ + value;
    let text = head + "\nx-hellohq-trailers: "@ + value;
    assert(text =~= head + seq!['\n'] + line);
    lemma_trailers_value_is_plain(entries);
    let k = name.len() as int;
    assert forall|i: int| 0 <= i < k implies line[i] != ':' && line[i] != '\n' by {
        assert(line[i] == name[i]);
    }
    assert(line[k] == ':');
    assert(line[k + 1] == ' ');
    lemma_find(line, ':', k);
    assert(line.take(k) =~= name);
    lemma_trim_keeps(name);
    let after = line.skip(k + 1);
    assert(after =~= seq![' '] + value);
    assert(after.drop_first() =~= value);
    assert(trim_start(value) == value);
    assert(trim_start(after) == value);
    assert forall|i: int| 0 <= i < line.len() implies line[i] != '\n' by {
        if i >= k + 2 {
            assert(line[i] == value[i - k - 2]);
        }
    }
    assert(!holds(line, '\n'));
    lemma_split_last_line(head, line);
    let lines = split(head, '\n');
    lemma_split_is_not_empty(head);
    let rest = lines.drop_first();
    assert(lines.push(line)[0] == lines[0]);
    assert(lines.push(line).drop_first() =~= rest.push(line));
    assert(rest.push(line).drop_last() =~= rest);
    assert(rest.push(line).last() == line);
    law_trailers_round_trip(entries);
    assert(name_and_value(line) == Some((name, value)));
    assert(read(line) is None);
    assert(rest.push(line).filter_map(read) =~= rest.filter_map(read));
}

/// A trailers value starts with no white space and holds no line break, where
/// its names do not.
proof fn lemma_trailers_value_is_plain(entries: Seq<FieldView>)
    requires
        forall|i: int| 0 <= i < entries.len() ==> writable_name((#[trigger] entries[i]).0),
        forall|i: int| 0 <= i < entries.len() ==> !holds((#[trigger] entries[i]).0, '\n'),
    ensures
        trailers_value(entries).len() > 0 ==> !is_white(trailers_value(entries)[0]),
        forall|i: int| 0 <= i < trailers_value(entries).len() ==> trailers_value(entries)[i] != '\n',
    decreases entries.len(),
{
    let value = trailers_value(entries);
    if entries.len() > 0 {
        let e = entries[0];
        let first = trailer_text(e);
        let hex = hex_text(e.1);
        law_hex_text_is_digits(e.1);
        assert(writable_name(entries[0].0) && !holds(entries[0].0, '\n'));
        assert forall|i: int| 0 <= i < first.len() implies first[i] != '\n' by {
            if i < e.0.len() {
                assert(first[i] == e.0[i]);
            } else if i > e.0.len() {
                assert(first[i] == hex[i - e.0.len() - 1]);
                assert(hex_value(hex[i - e.0.len() - 1]) is Some);
            }
        }
        assert(first[0] == (if e.0.len() > 0 {
            e.0[0]
        } else {
            '='
        }));
        let parts = trailer_texts(entries);
        assert(parts[0] == first);
        if entries.len() > 1 {
            let rest = entries.drop_first();
            assert forall|i: int| 0 <= i < rest.len() implies writable_name((#[trigger] rest[i]).0)
                && !holds(rest[i].0, '\n') by {
                assert(rest[i] == entries[i + 1]);
            }
            lemma_trailers_value_is_plain(rest);
            assert(parts.drop_first() =~= trailer_texts(rest));
            let tail = trailers_value(rest);
            assert(value =~= first + seq![';'] + tail);
            assert(value[0] == first[0]);
            assert forall|i: int| 0 <= i < value.len() implies value[i] != '\n' by {
                if i < first.len() {
                    assert(value[i] == first[i]);
                } else if i > first.len() {
                    assert(value[i] == tail[i - first.len() - 1]);
                }
            }
        } else {
            assert(value =~= first);
        }
    }
}

/// A joined list grows at its end: the separator stands between two parts, and
/// nowhere else.
pub proof fn law_join_puts_the_separator_between(parts: Seq<Seq<char>>, last: Seq<char>, sep: char)
    ensures
        join(seq![], sep) == Seq::<char>::empty(),
        parts.len() == 0 ==> join(parts.push(last), sep) == last,
        parts.len() > 0 ==> join(parts.push(last), sep) == join(parts, sep) + seq![sep] + last,
    decreases parts.len(),
{
    if parts.len() > 0 {
        let rest = parts.drop_first();
        law_join_puts_the_separator_between(rest, last, sep);
        assert(parts.push(last).drop_first() =~= rest.push(last));
        if rest.len() == 0 {
            assert(join(parts.push(last), sep) =~= parts[0] + seq![sep] + last);
        } else {
            assert(join(parts.push(last), sep) =~= join(parts, sep) + seq![sep] + last);
        }
    }
}

/// A trailers value grows at its end by `name=hex`, with `;` before it where it
/// is not the first; its line bears the reserved name.
pub proof fn law_request_trailers_are_written_in_order(entries: Seq<FieldView>, e: FieldView)
    ensures
        request_trailers_line(seq![]) is None,
        request_trailers_line(entries.push(e)) == Some(
            "x-hellohq-request-trailers: "@ + (if entries.len() == 0 {
                seq![]
            } else {
                trailers_value(entries) + ";"@
            }) + e.0 + "="@ + hex_text(e.1),
        ),
        trailers_value(entries.push(e)) == (if entries.len() == 0 {
            seq![]
        } else {
            trailers_value(entries) + ";"@
        }) + e.0 + "="@ + hex_text(e.1),
{
    reveal_strlit("x-hellohq-request-trailers: ");
    reveal_strlit("x-hellohq-request-trailers");
    reveal_strlit(": ");
    reveal_strlit(";");
    reveal_strlit("=");
    let all = entries.push(e);
    let parts = trailer_texts(entries);
    assert(trailer_texts(all) =~= parts.push(trailer_text(e)));
    law_join_puts_the_separator_between(parts, trailer_text(e), ';');
    let value = (if entries.len() == 0 {
        seq![]
    } else {
        trailers_value(entries) + ";"@
    }) + e.0 + "="@ + hex_text(e.1);
    assert(trailers_value(all) =~= value);
    assert("x-hellohq-request-trailers"@ + ": "@ =~= "x-hellohq-request-trailers: "@);
    assert(REQUEST_TRAILERS_HEAD_KEY@ + ": "@ + value =~= "x-hellohq-request-trailers: "@ + (
    if entries.len() == 0 {
        seq![]
    } else {
        trailers_value(entries) + ";"@
    }) + e.0 + "="@ + hex_text(e.1));
}

/// The options line gives the timeouts that are set, in nanoseconds, under their
/// labels and in their order, with `;` between them.
pub proof fn law_options_line_gives_the_timeouts(o: RequestOptionsData)
    ensures
        ({
            let c = match o.connect_timeout {
                Some(n) => "connect="@ + decimal(n as nat),
                None => seq![],
            };
            let f = match o.first_byte_timeout {
                Some(n) => (if o.connect_timeout is Some {
                    ";first-byte="@
                } else {
                    "first-byte="@
                }) + decimal(n as nat),
                None => seq![],
            };
            let b = match o.between_bytes_timeout {
                Some(n) => (if o.connect_timeout is Some || o.first_byte_timeout is Some {
                    ";between-bytes="@
                } else {
                    "between-bytes="@
                }) + decimal(n as nat),
                None => seq![],
            };
            options_line(o) == (if o.connect_timeout is None && o.first_byte_timeout is None
                && o.between_bytes_timeout is None {
                None
            } else {
                Some("x-hellohq-request-options: "@ + c + f + b)
            })
        }),
{
    reveal_strlit("connect=");
    reveal_strlit("first-byte=");
    reveal_strlit(";first-byte=");
    reveal_strlit("between-bytes=");
    reveal_strlit(";between-bytes=");
    reveal_strlit(": ");
    reveal_strlit("x-hellohq-request-options");
    reveal_strlit("x-hellohq-request-options: ");
    assert("x-hellohq-request-options"@ + ": "@ =~= "x-hellohq-request-options: "@);
    assert(";first-byte="@ =~= seq![';'] + "first-byte="@);
    assert(";between-bytes="@ =~= seq![';'] + "between-bytes="@);
    let c = match o.connect_timeout {
        Some(n) => "connect="@ + decimal(n as nat),
        None => seq![],
    };
    let f = match o.first_byte_timeout {
        Some(n) => "first-byte="@ + decimal(n as nat),
        None => seq![],
    };
    let b = match o.between_bytes_timeout {
        Some(n) => "between-bytes="@ + decimal(n as nat),
        None => seq![],
    };
    let none = Seq::<Seq<char>>::empty();
    let p1 = if o.connect_timeout is Some {
        none.push(c)
    } else {
        none
    };
    let p2 = if o.first_byte_timeout is Some {
        p1.push(f)
    } else {
        p1
    };
    let p3 = if o.between_bytes_timeout is Some {
        p2.push(b)
    } else {
        p2
    };
    assert(timeout_parts(o) =~= p3);
    law_join_puts_the_separator_between(none, c, ';');
    law_join_puts_the_separator_between(p1, f, ';');
    law_join_puts_the_separator_between(p2, b, ';');
    if let Some(line) = options_line(o) {
        let f2 = match o.first_byte_timeout {
            Some(n) => (if o.connect_timeout is Some {
                ";first-byte="@
            } else {
                "first-byte="@
            }) + decimal(n as nat),
            None => seq![],
        };
        let b2 = match o.between_bytes_timeout {
            Some(n) => (if o.connect_timeout is Some || o.first_byte_timeout is Some {
                ";between-bytes="@
            } else {
                "between-bytes="@
            }) + decimal(n as nat),
            None => seq![],
        };
        assert(join(p3, ';') =~= c + f2 + b2);
        assert(line =~= "x-hellohq-request-options: "@ + c + f2 + b2);
    }
}

/// A request head is the request line, then one line `name: value` for each
/// header in order, then the options line where there is one.
pub proof fn law_request_head_lines(
    method: Seq<char>,
    scheme: Seq<char>,
    authority: Seq<char>,
    path: Seq<char>,
    entries: Seq<FieldView>,
    e: FieldView,
    options: Seq<char>,
)
    ensures
        request_head(method, scheme, authority, path, seq![], None) == method + " "@ + scheme
            + "://"@ + authority + path,
        request_head(method, scheme, authority, path, entries.push(e), None) == request_head(
            method,
            scheme,
            authority,
            path,
            entries,
            None,
        ) + "\n"@ + e.0 + ": "@ + utf8_lossy(e.1),
        request_head(method, scheme, authority, path, entries, Some(options)) == request_head(
            method,
            scheme,
            authority,
            path,
            entries,
            None,
        ) + "\n"@ + options,
{
    reveal_strlit("\n");
    let line = method + " "@ + scheme + "://"@ + authority + path;
    assert(request_head(method, scheme, authority, path, seq![], None) =~= line);
    assert(entries.push(e).drop_last() =~= entries);
    assert(request_head(method, scheme, authority, path, entries.push(e), None) =~= request_head(
        method,
        scheme,
        authority,
        path,
        entries,
        None,
    ) + "\n"@ + e.0 + ": "@ + utf8_lossy(e.1));
    assert(request_head(method, scheme, authority, path, entries, Some(options)) =~= request_head(
        method,
        scheme,
        authority,
        path,
        entries,
        None,
    ) + "\n"@ + options);
}

} // verus!
