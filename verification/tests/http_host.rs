use hellohq_wasm_runtime::api::Level;
use hellohq_wasm_runtime::capstone::CapstoneHarness;
use hellohq_wasm_runtime::engine::{p3s_engine, run_component_host_import};
use hellohq_wasm_runtime::fields::FieldsData;
use hellohq_wasm_runtime::guests::{http_run, outbound_run, Dispatch};
use hellohq_wasm_runtime::hex::{hex_decode, hex_encode};
use hellohq_wasm_runtime::http_exchange::{
    ExchangeState, HttpAction, HttpEvent, TrailersValue, YIELD_BUDGET,
};
use hellohq_wasm_runtime::http_head::{
    format_request_options_line, format_request_trailers_line, parse_response_head,
    parse_trailers_line,
};
use hellohq_wasm_runtime::http_streams::{
    consume_step, response_body_step, ConsumeStep, ProduceStep,
};
use hellohq_wasm_runtime::wasi_guests::{GatedHttpHooks, GoGuestState};
use hellohq_wasm_runtime::wasi_http::{
    method_str, ErrorCode, HeaderError, Method, RequestData, RequestOptionsData,
    RequestOptionsError, ResponseData, Scheme, WasiHttpHost,
};
use hellohq_wasm_runtime::{P3sEvent, P3sOut};

/// Runs a component that calls into its host on a backend. The guests of these
/// tests are not compiled here: what a guest makes of its host's replies is the
/// library's `guests` module, which runs beside the backend and not on it.
fn run_on_backend(use_pulley: bool) {
    assert!(p3s_engine(use_pulley).is_some());
    assert_eq!(run_component_host_import(use_pulley, 21).unwrap(), 42);
}

/// A host whose bodies are byte vectors and whose trailers futures are numbers.
type Host = WasiHttpHost<Vec<u8>, Option<u32>, ()>;

fn out_frames(events: Vec<P3sEvent>) -> Vec<Option<Vec<u8>>> {
    events
        .into_iter()
        .map(|e| match e {
            P3sEvent::Out(c) => Some(c),
            P3sEvent::OutEnd => None,
            P3sEvent::Done(_) => panic!("no run ends here"),
        })
        .collect()
}

#[test]
fn fields_set_get_has_delete_roundtrip() {
    let mut host = Host::new();
    let f = host.fields_new();
    host.fields_set(f, "Content-Type".into(), vec![b"text/plain".to_vec()])
        .unwrap();
    // Case-insensitive name lookup.
    let got = host.fields_get(f, "content-type".into());
    assert_eq!(got, vec![b"text/plain".to_vec()]);
    assert!(host.fields_has(f, "CONTENT-TYPE".into()));
    host.fields_delete(f, "content-type".into()).unwrap();
    assert!(!host.fields_has(f, "content-type".into()));
}

#[test]
fn fields_append_multi_valued_and_copy_all() {
    let mut host = Host::new();
    let f = host.fields_new();
    host.fields_append(f, "Set-Cookie".into(), b"a=1".to_vec())
        .unwrap();
    host.fields_append(f, "Set-Cookie".into(), b"b=2".to_vec())
        .unwrap();
    let got = host.fields_get(f, "set-cookie".into());
    assert_eq!(got, vec![b"a=1".to_vec(), b"b=2".to_vec()]);
    let all = host.fields_copy_all(f);
    assert_eq!(all.len(), 2);
}

#[test]
fn fields_from_list_and_clone_is_independent() {
    let mut host = Host::new();
    let f = host
        .fields_from_list(vec![
            ("X-A".into(), b"1".to_vec()),
            ("X-B".into(), b"2".to_vec()),
        ])
        .unwrap();
    let cloned = host.fields_clone(f);
    // Mutate the clone; original must be unaffected (deep copy).
    host.fields_set(cloned, "X-A".into(), vec![b"changed".to_vec()])
        .unwrap();
    let orig = host.fields_get(f, "X-A".into());
    assert_eq!(orig, vec![b"1".to_vec()]);
    let cl = host.fields_get(cloned, "X-A".into());
    assert_eq!(cl, vec![b"changed".to_vec()]);
}

#[test]
fn fields_immutable_flag_rejects_mutation() {
    let mut host = Host::new();
    let f = host.fields_new();
    // Simulate handing out as immutable (as request.get-headers does).
    host.fields.get_mut(f).unwrap().immutable = true;
    let err = host
        .fields_set(f, "X".into(), vec![b"y".to_vec()])
        .unwrap_err();
    assert!(matches!(err, HeaderError::Immutable));
}

#[test]
fn fields_set_replaces_in_place_of_the_end_and_get_and_delete_returns() {
    let mut host = Host::new();
    let f = host
        .fields_from_list(vec![
            ("a".into(), b"1".to_vec()),
            ("b".into(), b"2".to_vec()),
            ("A".into(), b"3".to_vec()),
        ])
        .unwrap();
    host.fields_set(f, "A".into(), vec![b"x".to_vec(), b"y".to_vec()])
        .unwrap();
    assert_eq!(
        host.fields_copy_all(f),
        vec![
            ("b".to_string(), b"2".to_vec()),
            ("A".to_string(), b"x".to_vec()),
            ("A".to_string(), b"y".to_vec()),
        ]
    );
    assert_eq!(
        host.fields_get_and_delete(f, "a".into()).unwrap(),
        vec![b"x".to_vec(), b"y".to_vec()]
    );
    assert_eq!(host.fields_copy_all(f).len(), 1);
    // A number without fields: reads give nothing, changes are refused.
    host.fields_drop(f);
    assert!(host.fields_get(f, "b".into()).is_empty());
    assert!(!host.fields_has(f, "b".into()));
    assert!(host.fields_copy_all(f).is_empty());
    assert!(host.fields_delete(f, "b".into()).is_err());
    assert!(host.fields_append(f, "b".into(), vec![]).is_err());
    assert!(host.fields_get_and_delete(f, "b".into()).is_err());
    // The number is not handed out again.
    assert_eq!((f, host.fields_new()), (1, 2));
    // Three numbers are gone, 0 among them.
    assert!(host.fields.fits(u32::MAX - 3));
    assert!(!host.fields.fits(u32::MAX - 2));
}

fn bare_request(headers: u32) -> RequestData<Vec<u8>, Option<u32>> {
    RequestData {
        method: Method::Get,
        path_with_query: None,
        scheme: None,
        authority: None,
        headers,
        options: None,
        body: None,
        trailers: None,
    }
}

#[test]
fn request_method_path_scheme_authority_roundtrip() {
    let mut host = Host::new();
    let hdr = host.fields_new();
    let req = host.requests.insert(bare_request(hdr));

    // Default method is GET.
    assert!(matches!(host.request_get_method(req), Method::Get));

    host.request_set_method(req, Method::Post).unwrap();
    assert!(matches!(host.request_get_method(req), Method::Post));

    host.request_set_method(req, Method::Other("PURGE".into()))
        .unwrap();
    match host.request_get_method(req) {
        Method::Other(s) => assert_eq!(s, "PURGE"),
        other => panic!("expected Other, got {other:?}"),
    }

    host.request_set_path_with_query(req, Some("/p?q=1".into()))
        .unwrap();
    assert_eq!(
        host.request_get_path_with_query(req),
        Some("/p?q=1".to_string())
    );

    host.request_set_scheme(req, Some(Scheme::Https)).unwrap();
    assert!(matches!(
        host.request_get_scheme(req),
        Some(Scheme::Https)
    ));

    host.request_set_authority(req, Some("example.com".into()))
        .unwrap();
    assert_eq!(
        host.request_get_authority(req),
        Some("example.com".to_string())
    );

    // get_headers returns the backing fields and marks them immutable.
    let h = host.request_get_headers(req);
    assert_eq!(h, hdr);
    assert!(host.fields.get(hdr).unwrap().immutable);
}

#[test]
fn requests_hand_out_options_once_made_immutable_and_bodies_once() {
    let mut host = Host::new();
    let hdr = host.fields_new();
    let opts = host.options_new();
    let req = host.request_new(hdr, Some(b"body".to_vec()), Some(7), Some(opts));
    assert_eq!(host.request_get_options(req), Some(opts));
    assert!(host.options_set_connect_timeout(opts, Some(1)).is_err());
    assert_eq!(
        host.request_consume_body(req),
        (Some(b"body".to_vec()), Some(Some(7)))
    );
    assert_eq!(host.request_consume_body(req), (None, None));
    host.request_drop(req);
    assert!(host.request_set_method(req, Method::Get).is_err());
    assert!(host.request_set_scheme(req, None).is_err());
    assert!(host.request_set_authority(req, None).is_err());
    assert!(host.request_set_path_with_query(req, None).is_err());
    assert_eq!(host.request_get_headers(req), 0);
    assert_eq!(host.request_get_options(req), None);
    assert_eq!(host.request_get_path_with_query(req), None);
    assert_eq!(host.request_get_authority(req), None);
    assert!(host.request_get_scheme(req).is_none());
    assert_eq!(host.request_get_method(req), Method::Get);
}

#[test]
fn response_status_code_roundtrip_and_validation() {
    let mut host = Host::new();
    let hdr = host.fields_new();
    let resp = host.responses.insert(ResponseData {
        status_code: 200,
        headers: hdr,
        body: None,
        trailers: None,
    });
    // Default 200.
    assert_eq!(host.response_get_status_code(resp), 200);
    host.response_set_status_code(resp, 404).unwrap();
    assert_eq!(host.response_get_status_code(resp), 404);
    // Out-of-range code rejected.
    assert!(host.response_set_status_code(resp, 999).is_err());
}

#[test]
fn response_edges() {
    let mut host = Host::new();
    let hdr = host.fields_new();
    let resp = host.response_new(hdr, Some(b"b".to_vec()), None);
    assert!(host.response_set_status_code(resp, 99).is_err());
    assert!(host.response_set_status_code(resp, 600).is_err());
    assert!(host.response_set_status_code(resp, 100).is_ok());
    assert!(host.response_set_status_code(resp, 599).is_ok());
    assert_eq!(host.response_get_status_code(resp), 599);
    assert_eq!(host.response_get_headers(resp), hdr);
    assert!(host.fields_append(hdr, "x".into(), vec![]).is_err());
    assert_eq!(
        host.response_consume_body(resp),
        (Some(b"b".to_vec()), Some(None))
    );
    assert_eq!(host.response_consume_body(resp), (None, None));
    host.response_drop(resp);
    assert_eq!(host.response_get_status_code(resp), 200);
    assert!(host.response_set_status_code(resp, 200).is_err());
    assert_eq!(host.response_get_headers(resp), 0);
}

#[test]
fn request_options_timeouts_roundtrip_and_immutability() {
    let mut host = Host::new();
    let rep = host.options_new();
    assert_eq!(host.options_get_connect_timeout(rep), None);
    host.options_set_connect_timeout(rep, Some(1_000)).unwrap();
    host.options_set_first_byte_timeout(rep, Some(2_000))
        .unwrap();
    host.options_set_between_bytes_timeout(rep, Some(3_000))
        .unwrap();
    assert_eq!(host.options_get_connect_timeout(rep), Some(1_000));
    assert_eq!(host.options_get_first_byte_timeout(rep), Some(2_000));
    assert_eq!(host.options_get_between_bytes_timeout(rep), Some(3_000));

    // Mark immutable (as request.get-options does) → sets fail.
    host.options.get_mut(rep).unwrap().immutable = true;
    let err = host.options_set_connect_timeout(rep, Some(9)).unwrap_err();
    assert!(matches!(err, RequestOptionsError::Immutable));

    // clone() yields a mutable, independent copy.
    let copy = host.options_clone(rep);
    assert_eq!(host.options_get_connect_timeout(copy), Some(1_000));
    host.options_set_connect_timeout(copy, Some(42)).unwrap();
    assert_eq!(host.options_get_connect_timeout(copy), Some(42));

    assert_eq!(host.options_get_connect_timeout(rep), Some(1_000));
    host.options_drop(rep);
    assert!(host.options_set_first_byte_timeout(rep, None).is_err());
    assert!(host.options_set_between_bytes_timeout(rep, None).is_err());
    assert_eq!(host.options_get_between_bytes_timeout(rep), None);
}

#[test]
fn request_options_line_omits_unset_and_emits_set() {
    // No timeout set → no line at all.
    assert_eq!(
        format_request_options_line(&RequestOptionsData::default()),
        None
    );
    // Only the set timeouts appear, in nanoseconds, in order.
    let opts = RequestOptionsData {
        connect_timeout: Some(1_000),
        between_bytes_timeout: Some(3_000),
        ..Default::default()
    };
    assert_eq!(
        format_request_options_line(&opts).as_deref(),
        Some("x-hellohq-request-options: connect=1000;between-bytes=3000")
    );
    // All three set.
    let all = RequestOptionsData {
        connect_timeout: Some(1),
        first_byte_timeout: Some(2),
        between_bytes_timeout: Some(3),
        immutable: false,
    };
    assert_eq!(
        format_request_options_line(&all).as_deref(),
        Some("x-hellohq-request-options: connect=1;first-byte=2;between-bytes=3")
    );
}

#[test]
fn trailers_line_roundtrips_via_hex() {
    // hex decode basics + binary-safety (a value with ';' and '=').
    assert_eq!(hex_decode("00ff"), Some(vec![0x00, 0xff]));
    assert_eq!(hex_decode("0"), None); // odd length
    assert_eq!(hex_decode("zz"), None); // non-hex

    // "x-checksum" = "a;b=c" (bytes 61 3b 62 3d 63), "trace" = "1".
    let parsed = parse_trailers_line("x-checksum=613b623d63;trace=31");
    assert_eq!(
        parsed,
        vec![
            ("x-checksum".to_string(), b"a;b=c".to_vec()),
            ("trace".to_string(), b"1".to_vec()),
        ]
    );
    // Malformed pairs are skipped; empty input → no entries.
    assert!(parse_trailers_line("").is_empty());
    assert_eq!(
        parse_trailers_line("good=31;nobad;odd=1"),
        vec![("good".to_string(), b"1".to_vec())]
    );
}

#[test]
fn trailers_line_trims_and_keeps_empty_values() {
    assert_eq!(
        parse_trailers_line(" a = 31 ;; b=;=6 ;=33"),
        vec![
            ("a".to_string(), b"1".to_vec()),
            ("b".to_string(), vec![]),
            ("".to_string(), b"3".to_vec()),
        ]
    );
}

#[test]
fn request_trailers_line_omits_empty_and_emits_entries() {
    // No entries → no line at all.
    assert_eq!(format_request_trailers_line(&[]), None);

    // A single entry hex-encodes its value; "req-trailer-1" → its hex.
    let entries = vec![("x-trace".to_string(), b"req-trailer-1".to_vec())];
    assert_eq!(
        format_request_trailers_line(&entries).as_deref(),
        Some(
            format!(
                "x-hellohq-request-trailers: x-trace={}",
                hex_encode(b"req-trailer-1")
            )
            .as_str()
        )
    );

    // Multiple entries are ';'-joined, and decode back via parse_trailers_line
    // (binary-safe — value with ';' and '=' survives).
    let entries = vec![
        ("x-checksum".to_string(), b"a;b=c".to_vec()),
        ("trace".to_string(), b"1".to_vec()),
    ];
    let line = format_request_trailers_line(&entries).unwrap();
    let value = line.strip_prefix("x-hellohq-request-trailers: ").unwrap();
    assert_eq!(parse_trailers_line(value), entries);
}

#[test]
fn method_names() {
    for (m, name) in [
        (Method::Get, "GET"),
        (Method::Head, "HEAD"),
        (Method::Post, "POST"),
        (Method::Put, "PUT"),
        (Method::Delete, "DELETE"),
        (Method::Connect, "CONNECT"),
        (Method::Options, "OPTIONS"),
        (Method::Trace, "TRACE"),
        (Method::Patch, "PATCH"),
        (Method::Other("x".into()), "x"),
    ] {
        assert_eq!(method_str(&m), name);
        assert_eq!(m.clone(), m);
    }
}

#[test]
fn response_heads() {
    let head = parse_response_head(
        " 204 \nContent-Type:  text/plain\n\nno colon\nX-HelloHQ-Trailers: a=31\nname : v : w \nx-hellohq-trailers:b=32;bad",
    )
    .ok()
    .unwrap();
    assert_eq!(head.status_code, 204);
    assert_eq!(
        head.headers,
        vec![
            ("Content-Type".to_string(), b"text/plain".to_vec()),
            ("name".to_string(), b"v : w ".to_vec()),
        ]
    );
    // The last reserved line counts.
    assert_eq!(head.trailers, Some(vec![("b".to_string(), b"2".to_vec())]));
    let plain = parse_response_head("200").ok().unwrap();
    assert!(plain.headers.is_empty() && plain.trailers.is_none());
    match parse_response_head("abc\"\nx: y") {
        Err(e) => assert_eq!(
            e,
            ErrorCode::InternalError(Some(
                "wasi:http handler: malformed response status line \"abc\\\"\"".to_string()
            ))
        ),
        Ok(_) => panic!("no status"),
    }
    assert!(parse_response_head("").is_err());
    assert!(parse_response_head("70000").is_err());
}

/// Answers a guest's GET in-process and returns what the guest makes of it.
fn echo(host: &mut Host) -> Vec<u8> {
    let headers = host.fields_new();
    let request = host.request_new(headers, None, None, None);
    host.request_set_authority(request, Some("example.com".into()))
        .unwrap();
    host.request_set_path_with_query(request, Some("/".into()))
        .unwrap();
    let (state, action) = host.handle(request);
    let body = match action {
        HttpAction::Mint {
            body: Some(b),
            trailers: None,
        } => b,
        _ => panic!("the echo makes a body"),
    };
    let (_, action) = host.step(
        state,
        HttpEvent::Minted {
            body,
            trailers: None,
        },
    );
    let response = match action {
        HttpAction::Respond(rep) => rep,
        _ => panic!("the echo responds"),
    };
    let resp_headers = host.response_get_headers(response);
    assert_eq!(
        host.fields_get(resp_headers, "x-hellohq".into()),
        vec![b"ok".to_vec()]
    );
    let status = host.response_get_status_code(response);
    let (body, _) = host.response_consume_body(response);
    http_run(Ok((status, body.unwrap())))
}

fn assert_echo(use_pulley: bool) {
    run_on_backend(use_pulley);
    let out = echo(&mut Host::new());
    assert!(out.len() >= 2);
    let status = u16::from_le_bytes([out[0], out[1]]);
    assert_eq!(status, 200);
    let body = String::from_utf8_lossy(&out[2..]);
    assert_eq!(body, "GET example.com/");
}

#[test]
fn cranelift_http_handle_echo() {
    assert_echo(false);
}

#[test]
fn pulley_http_handle_echo() {
    assert_echo(true);
}

fn assert_combined(use_pulley: bool) {
    run_on_backend(use_pulley);
    let mut caps = CapstoneHarness::new(true);
    let mut http = Host::new();
    caps.write(
        Level::Info,
        "plugin-http-guest: fetching example.com".into(),
    );
    let out = echo(&mut http);
    assert!(out.len() >= 2);
    let status = u16::from_le_bytes([out[0], out[1]]);
    assert_eq!(status, 200);
    let body = String::from_utf8_lossy(&out[2..]);
    assert_eq!(body, "GET example.com/");
    assert!(caps
        .captured_logs()
        .iter()
        .any(|l| l.message.contains("fetching example.com")));
}

#[test]
fn cranelift_plugin_world_capability_plus_http() {
    assert_combined(false);
}

#[test]
fn pulley_plugin_world_capability_plus_http() {
    assert_combined(true);
}

fn transport_host() -> Host {
    Host::with_transport(P3sOut::new(), ())
}

#[test]
fn a_request_goes_out_and_its_response_comes_back() {
    let mut host = transport_host();
    let headers = host
        .fields_from_list(vec![
            ("Accept".into(), b"*/*".to_vec()),
            ("x-bin".into(), vec![0x61, 0xff]),
        ])
        .unwrap();
    let options = host.options_new();
    host.options_set_first_byte_timeout(options, Some(5)).unwrap();
    let trailers = host
        .fields_from_list(vec![("x-trace".into(), b"req-trailer-1".to_vec())])
        .unwrap();
    let request = host.request_new(
        headers,
        Some(b"req-body-123".to_vec()),
        Some(trailers),
        Some(options),
    );
    host.request_set_method(request, Method::Post).unwrap();
    host.request_set_authority(request, Some("example.com".into()))
        .unwrap();
    host.request_set_path_with_query(request, Some("/submit".into()))
        .unwrap();

    let (state, action) = host.handle(request);
    assert!(matches!(action, HttpAction::DrainBody(b) if b == b"req-body-123"));
    let (state, action) = host.step(state, HttpEvent::BodyChunk(b"req-".to_vec()));
    assert!(matches!(action, HttpAction::NextChunk));
    let (state, _) = host.step(state, HttpEvent::BodyChunk(vec![]));
    let (state, _) = host.step(state, HttpEvent::BodyChunk(b"body-123".to_vec()));
    let (state, action) = host.step(state, HttpEvent::BodyEnd);
    assert!(matches!(action, HttpAction::PollTrailers(Some(t)) if t == trailers));
    let (state, action) = host.step(state, HttpEvent::TrailersPolled(None));
    assert!(matches!(action, HttpAction::Yield));
    let (state, action) = host.step(
        state,
        HttpEvent::TrailersPolled(Some(TrailersValue::Fields(trailers))),
    );
    assert!(matches!(action, HttpAction::AwaitFrame(())));
    assert_eq!(
        out_frames(host.transport.as_mut().unwrap().out.take()),
        vec![
            Some(
                "POST https://example.com/submit\nAccept: */*\nx-bin: a\u{fffd}\nx-hellohq-request-options: first-byte=5"
                    .as_bytes()
                    .to_vec()
            ),
            Some(b"req-".to_vec()),
            Some(b"body-123".to_vec()),
            Some(
                format!(
                    "x-hellohq-request-trailers: x-trace={}",
                    hex_encode(b"req-trailer-1")
                )
                .into_bytes()
            ),
            None,
        ]
    );

    let (state, action) = host.step(
        state,
        HttpEvent::Frame(Some(
            b"201\ncontent-type: text/plain\nx-hellohq-trailers: sum=6f6b".to_vec(),
        )),
    );
    let resp_trailers = match action {
        HttpAction::Mint {
            body: None,
            trailers: Some(t),
        } => t,
        _ => panic!("the response is made from the frames"),
    };
    let (state, action) = host.step(
        state,
        HttpEvent::Minted {
            body: b"created".to_vec(),
            trailers: Some(resp_trailers),
        },
    );
    assert!(matches!(state, ExchangeState::Over));
    let response = match action {
        HttpAction::Respond(rep) => rep,
        _ => panic!("a response"),
    };
    assert_eq!(host.response_get_status_code(response), 201);
    let h = host.response_get_headers(response);
    assert_eq!(
        host.fields_copy_all(h),
        vec![("content-type".to_string(), b"text/plain".to_vec())]
    );
    assert_eq!(
        host.fields_copy_all(resp_trailers),
        vec![("sum".to_string(), b"ok".to_vec())]
    );
    assert!(host.fields_delete(resp_trailers, "sum".into()).is_err());
    assert_eq!(
        host.response_consume_body(response),
        (Some(b"created".to_vec()), Some(Some(resp_trailers)))
    );
}

#[test]
fn the_wait_for_trailers_is_bounded() {
    let mut host = transport_host();
    let headers = host.fields_new();
    let request = host.request_new(headers, None, None, None);
    host.request_set_scheme(request, Some(Scheme::Http)).unwrap();
    let (mut state, action) = host.handle(request);
    assert!(matches!(action, HttpAction::PollTrailers(None)));
    let mut yields = 0;
    loop {
        let (next, action) = host.step(state, HttpEvent::TrailersPolled(None));
        state = next;
        match action {
            HttpAction::Yield => yields += 1,
            HttpAction::AwaitFrame(()) => break,
            _ => panic!("a yield or the head"),
        }
    }
    assert_eq!(yields, YIELD_BUDGET);
    assert_eq!(
        out_frames(host.transport.as_mut().unwrap().out.take()),
        vec![Some(b"GET http:///".to_vec()), None]
    );
    assert!(matches!(state, ExchangeState::Head));
}

#[test]
fn exchanges_fail_with_their_reason() {
    let message = |action: HttpAction<Vec<u8>, Option<u32>, ()>| match action {
        HttpAction::Fail(ErrorCode::InternalError(Some(m))) => m,
        _ => panic!("a failure"),
    };
    // An unknown request, with and without a transport.
    let mut host = Host::new();
    let (_, a) = host.handle(9);
    assert_eq!(message(a), "wasi:http handler: unknown request resource");
    let (_, a) = host.handle_via_transport(9);
    assert_eq!(message(a), "wasi:http handler: unknown request resource");
    // The transport is missing.
    let headers = host.fields_new();
    let request = host.request_new(headers, None, None, None);
    let (_, a) = host.handle_via_transport(request);
    assert_eq!(message(a), "wasi:http handler: transport missing");

    let mut host = transport_host();
    let headers = host.fields_new();
    let request = host.requests.insert(bare_request(headers));
    let (state, a) = host.handle(request);
    assert!(matches!(a, HttpAction::AwaitFrame(())));
    // The caller closes before it sends a head.
    let (_, a) = host.step(state, HttpEvent::Frame(None));
    assert_eq!(
        message(a),
        "wasi:http handler: caller closed inbound before sending a head"
    );
    // A malformed status line.
    let (_, a) = host.step(
        ExchangeState::Head,
        HttpEvent::Frame(Some(b"oops".to_vec())),
    );
    assert_eq!(
        message(a),
        "wasi:http handler: malformed response status line \"oops\""
    );
    // The inbound stream serves one request.
    let again = host.requests.insert(bare_request(headers));
    let (_, a) = host.handle(again);
    assert_eq!(
        message(a),
        "wasi:http handler: inbound stream already consumed"
    );
    // Streams that cannot be read or made.
    let body = ExchangeState::Body {
        trailers: None,
        inbound: None,
    };
    let (_, a) = host.step(body, HttpEvent::PipeFailed("pipe".into()));
    assert_eq!(message(a), "pipe");
    let wait = ExchangeState::Trailers {
        remaining: 1,
        inbound: None,
    };
    let (_, a) = host.step(wait, HttpEvent::PipeFailed("pipe".into()));
    assert_eq!(message(a), "pipe");
    let making = ExchangeState::Building {
        status_code: 200,
        headers,
    };
    let (_, a) = host.step(making, HttpEvent::MintFailed("mint".into()));
    assert_eq!(message(a), "mint");
    // An exchange that is over ignores what comes.
    let (state, a) = host.step(ExchangeState::Over, HttpEvent::BodyEnd);
    assert!(matches!(state, ExchangeState::Over));
    assert!(matches!(a, HttpAction::Ignore));
}

#[test]
fn trailers_that_are_absent_or_empty_write_no_line() {
    for value in [
        TrailersValue::Absent,
        TrailersValue::Canceled,
        TrailersValue::Failed,
        TrailersValue::Fields(99),
    ] {
        let mut host = transport_host();
        let headers = host.fields_new();
        let request = host.request_new(headers, None, None, None);
        let (state, _) = host.handle(request);
        let (_, action) = host.step(state, HttpEvent::TrailersPolled(Some(value)));
        assert!(matches!(action, HttpAction::AwaitFrame(())));
        assert_eq!(
            out_frames(host.transport.as_mut().unwrap().out.take()).len(),
            2
        );
    }
}

#[test]
fn stream_steps() {
    assert!(matches!(response_body_step(None), ProduceStep::Wait));
    assert!(matches!(response_body_step(Some(None)), ProduceStep::Ended));
    assert!(
        matches!(response_body_step(Some(Some(vec![1]))), ProduceStep::Deliver(b) if b == vec![1])
    );
    assert_eq!(consume_step(true, 3), ConsumeStep::Cancel);
    assert_eq!(consume_step(false, 0), ConsumeStep::Drop);
    assert_eq!(consume_step(false, 3), ConsumeStep::Read);
}

#[test]
fn fields_start_open() {
    let f = FieldsData::new();
    assert!(f.entries.is_empty() && !f.immutable);
    assert!(FieldsData::matches("A-b", "a-B"));
}

// ── Outbound requests of runtime guests ─────────────────────────────────────

fn uri(text: &str) -> hyper::Uri {
    text.parse().unwrap()
}

/// A sender that counts how often it was reached.
struct CannedSender {
    reached: usize,
}

fn send(hooks: &mut GatedHttpHooks<CannedSender>, target: &str) -> Result<u16, ErrorCode> {
    let sender = hooks.send_request(&uri(target))?;
    sender.reached += 1;
    Ok(200)
}

fn reached(hooks: &mut GatedHttpHooks<CannedSender>, allowed: &str) -> usize {
    hooks.send_request(&uri(allowed)).ok().unwrap().reached
}

fn assert_denied(result: Result<u16, ErrorCode>) {
    assert_eq!(result, Err(ErrorCode::HttpRequestDenied));
}

#[test]
fn wasi_http_02_outbound_denied() {
    let mut hooks = GatedHttpHooks::with_sender(Vec::new(), CannedSender { reached: 0 });
    assert_denied(send(&mut hooks, "https://example.com/"));
}

#[test]
fn wasi_http_02_allowlisted_passes_gate() {
    let allow = vec!["api.example.com".to_string()];
    let mut hooks = GatedHttpHooks::with_sender(allow, CannedSender { reached: 0 });
    assert!(send(&mut hooks, "https://api.example.com/").is_ok());
    assert_eq!(reached(&mut hooks, "https://api.example.com/"), 1);
}

#[test]
fn wasi_http_02_non_allowlisted_denied() {
    let allow = vec!["api.example.com".to_string()];
    let mut hooks = GatedHttpHooks::with_sender(allow, CannedSender { reached: 0 });
    assert_denied(send(&mut hooks, "https://evil.example.com/"));
    assert_eq!(reached(&mut hooks, "https://api.example.com/"), 0);
}

#[test]
fn wasi_http_02_ssrf_literal_denied() {
    let allow = vec!["169.254.169.254".to_string(), "8.8.8.8".to_string()];
    let mut hooks = GatedHttpHooks::with_sender(allow, CannedSender { reached: 0 });
    assert_denied(send(&mut hooks, "https://169.254.169.254/"));
    assert_eq!(reached(&mut hooks, "https://8.8.8.8/"), 0);
}

#[test]
fn wasi_http_02_http_scheme_denied() {
    let allow = vec!["api.example.com".to_string()];
    let mut hooks = GatedHttpHooks::with_sender(allow, CannedSender { reached: 0 });
    assert_denied(send(&mut hooks, "http://api.example.com/"));
    assert_eq!(reached(&mut hooks, "https://api.example.com/"), 0);
}

#[test]
fn a_uri_without_scheme_or_host_is_denied() {
    let allow = vec!["".to_string(), "api.example.com".to_string()];
    let mut hooks = GatedHttpHooks::with_sender(allow, CannedSender { reached: 0 });
    assert_denied(send(&mut hooks, "/only/a/path"));
    assert_denied(send(&mut hooks, "api.example.com:443"));
    // The decision reads the host without its port.
    assert!(send(&mut hooks, "https://API.example.com:8443/x?y").is_ok());
    assert!(hooks.let_through(None, Some("api.example.com")).is_err());
    assert!(hooks.let_through(Some("https"), None).is_ok());
}

#[test]
fn a_bracketed_literal_is_looked_into() {
    let allow = vec![
        "[::1]".to_string(),
        "[::ffff:10.0.0.1]".to_string(),
        "[2606:4700:4700::1111]".to_string(),
    ];
    let mut hooks = GatedHttpHooks::with_sender(allow, CannedSender { reached: 0 });
    assert_denied(send(&mut hooks, "https://[::1]/"));
    assert_denied(send(&mut hooks, "https://[::1]:8443/x"));
    assert_denied(send(&mut hooks, "https://[::ffff:10.0.0.1]/"));
    assert!(hooks.let_through(Some("https"), Some("[::1]")).is_err());
    // A public address passes, and only that request reaches the sender.
    assert!(send(&mut hooks, "https://[2606:4700:4700::1111]/").is_ok());
    assert_eq!(reached(&mut hooks, "https://[2606:4700:4700::1111]/"), 1);
}

#[test]
fn store_wires_gated_hooks() {
    let mut state = GoGuestState::with_origins(true, Vec::new());
    assert!(matches!(
        state.http_hooks.send_request(&uri("https://example.com/")),
        Err(ErrorCode::HttpRequestDenied)
    ));
}

/// Runs the outbound guest against the gated hooks and a sender that answers 200.
fn run_case(authority: &str, https: bool, allowlist: Vec<String>) -> (Result<u16, u8>, bool) {
    let mut state =
        GoGuestState::with_origins_and_sender(true, allowlist, CannedSender { reached: 0 });
    let scheme = if https { "https" } else { "http" };
    let sent = send(&mut state.http_hooks, &format!("{scheme}://{authority}/"));
    let reached = sent.is_ok();
    let result = outbound_run(match sent {
        Ok(status) => Dispatch::Answered(status),
        Err(e) => Dispatch::Rejected(e),
    });
    (result, reached)
}

#[test]
fn allow() {
    let (result, reached) = run_case("api.example.com", true, vec!["api.example.com".to_string()]);
    assert_eq!(result, Ok(200));
    assert!(reached, "send step must be reached on allow");
}

#[test]
fn deny_non_allowlisted() {
    let (result, reached) = run_case(
        "evil.example.com",
        true,
        vec!["api.example.com".to_string()],
    );
    assert_eq!(result, Err(2));
    assert!(!reached, "send must not be reached on deny");
}

#[test]
fn deny_ssrf_metadata_ip() {
    let (result, reached) = run_case("169.254.169.254", true, vec!["169.254.169.254".to_string()]);
    assert_eq!(result, Err(2));
    assert!(!reached, "send must not be reached on SSRF deny");
}

#[test]
fn deny_http_scheme() {
    let (result, reached) = run_case(
        "api.example.com",
        false,
        vec!["api.example.com".to_string()],
    );
    assert_eq!(result, Err(2));
    assert!(!reached, "send must not be reached on scheme deny");
}

#[test]
fn deny_empty_allowlist() {
    let (result, reached) = run_case("api.example.com", true, vec![]);
    assert_eq!(result, Err(2));
    assert!(!reached, "send must not be reached on empty-allowlist deny");
}

#[test]
fn outbound_markers() {
    let other = || ErrorCode::InternalError(None);
    assert_eq!(outbound_run(Dispatch::Rejected(other())), Err(1));
    assert_eq!(
        outbound_run(Dispatch::Failed(ErrorCode::HttpRequestDenied)),
        Err(2)
    );
    assert_eq!(outbound_run(Dispatch::Failed(other())), Err(3));
    assert_eq!(outbound_run(Dispatch::Lost), Err(4));
    assert_eq!(http_run(Err(other())), Vec::<u8>::new());
    assert_eq!(http_run(Ok((0x0194, vec![9]))), vec![0x94, 0x01, 9]);
}
