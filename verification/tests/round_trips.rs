use hellohq_wasm_runtime::api::{ApiError, Level, PluginEvent, PortfolioName};
use hellohq_wasm_runtime::engine::run_component_host_import;
use hellohq_wasm_runtime::guests::{
    inference_run, read_names, workspace_run, StorageCall, StorageGuest, StorageReply,
};
use hellohq_wasm_runtime::host_wire::{
    decode_bytes, decode_names, decode_reply, decode_texts, read_reply,
};
use hellohq_wasm_runtime::http_streams::ProduceStep;
use hellohq_wasm_runtime::inference::{
    token_step, token_stream_failed, ChatMessage, InferenceHost, InferenceOpts,
};
use hellohq_wasm_runtime::json::{parse_json, write_object, FieldValue, Json};
use hellohq_wasm_runtime::plugin_host::{decode_portfolio_names, TransportWorkspaceHost};
use hellohq_wasm_runtime::plugin_host_full::TransportPluginHost;
use hellohq_wasm_runtime::plugin_host_storage_events::TransportStorageEventsHost;
use hellohq_wasm_runtime::{
    HwrP3Session, HwrP3Stream, P3Event, P3sEvent, P3sOut, HWR_P3S_DONE, HWR_P3S_ERROR, HWR_P3S_OUT,
    HWR_P3S_OUT_END, HWR_P3_DONE, HWR_P3_ERROR, HWR_P3_PENDING,
};
use std::collections::HashMap;
use std::rc::Rc;

/// Runs a component that calls into its host on a backend. The guests of these
/// tests are not compiled here: what a guest makes of its host's replies is the
/// library's `guests` module, which runs beside the backend and not on it.
fn run_on_backend(use_pulley: bool) {
    assert_eq!(run_component_host_import(use_pulley, 21).unwrap(), 42);
}

/// One host call over the atomic round-trip: the worker reports it, the caller
/// reads and services it, the worker gets the answer.
fn serviced(
    session: &mut HwrP3Session<u32>,
    request: Vec<u8>,
    service: &mut dyn FnMut(&[u8]) -> Vec<u8>,
) -> Vec<u8> {
    let event = P3Event::HostCall {
        request,
        respond: 7,
    };
    assert_eq!(session.poll(Some(event)), HWR_P3_PENDING);
    let response = service(session.request());
    let (token, answer) = session.resolve(response).unwrap();
    assert_eq!(token, 7);
    assert!(session.request().is_empty());
    answer
}

fn p3_roundtrip(use_pulley: bool) {
    run_on_backend(use_pulley);
    let mut s: HwrP3Session<u32> = HwrP3Session::new();
    // The guest forwards its input to the host call and returns the answer.
    let event = P3Event::HostCall {
        request: b"ping".to_vec(),
        respond: 1,
    };
    assert_eq!(s.poll(Some(event)), HWR_P3_PENDING);
    assert_eq!(s.request(), b"ping");
    let (token, answer) = s.resolve(b"pong".to_vec()).unwrap();
    assert_eq!(token, 1);
    assert_eq!(s.poll(Some(P3Event::Done(Ok(answer)))), HWR_P3_DONE);
    assert_eq!(s.result(), b"pong");
}

#[test]
fn p3_roundtrip_cranelift() {
    p3_roundtrip(false);
}

#[test]
fn p3_roundtrip_pulley() {
    p3_roundtrip(true);
}

#[test]
fn p3_free_while_pending() {
    let responder = Rc::new(());
    let mut s = HwrP3Session::new();
    let event = P3Event::HostCall {
        request: b"x".to_vec(),
        respond: responder.clone(),
    };
    assert_eq!(s.poll(Some(event)), HWR_P3_PENDING);
    assert_eq!(Rc::strong_count(&responder), 2);
    drop(s); // lets go of the responder, which cancels the call
    assert_eq!(Rc::strong_count(&responder), 1);
}

#[test]
fn p3_errors_and_the_finished_state() {
    let mut s: HwrP3Session<u32> = HwrP3Session::new();
    assert!(!s.is_finished());
    assert!(s.resolve(b"nobody asked".to_vec()).is_none());
    assert_eq!(
        s.poll(Some(P3Event::Done(Err("trap é".into())))),
        HWR_P3_ERROR
    );
    assert_eq!(s.result(), "trap é".as_bytes());
    assert!(s.is_finished());
    // A run that errored is never reported as finished OK, and keeps its message.
    assert_eq!(s.poll(None), HWR_P3_ERROR);
    assert_eq!(s.poll(Some(P3Event::Done(Ok(vec![1])))), HWR_P3_ERROR);
    assert_eq!(s.result(), "trap é".as_bytes());
    let mut gone: HwrP3Session<u32> = HwrP3Session::new();
    assert_eq!(gone.poll(None), HWR_P3_ERROR);
    assert!(gone.result().is_empty());
    assert_eq!(gone.poll(Some(P3Event::Done(Ok(vec![1])))), HWR_P3_ERROR);
    assert!(gone.result().is_empty());
    // A run that finished OK stays so.
    let mut ok: HwrP3Session<u32> = HwrP3Session::new();
    assert_eq!(ok.poll(Some(P3Event::Done(Ok(vec![7])))), HWR_P3_DONE);
    assert_eq!(ok.poll(None), HWR_P3_DONE);
    assert_eq!(ok.poll(Some(P3Event::Done(Err("late".into())))), HWR_P3_DONE);
    assert_eq!(ok.result(), [7]);
}

#[test]
fn p3s_streaming_roundtrip() {
    let mut out = P3sOut::new();
    out.chunk(b"req-1".to_vec());
    out.chunk(b"req-2".to_vec());
    out.end();
    let mut events = out.take().into_iter();
    let mut s = HwrP3Stream::new();
    assert_eq!(s.poll(events.next()), HWR_P3S_OUT);
    assert_eq!(s.out_chunk(), b"req-1");
    assert_eq!(s.poll(events.next()), HWR_P3S_OUT);
    assert_eq!(s.out_chunk(), b"req-2");
    assert_eq!(s.poll(events.next()), HWR_P3S_OUT_END); // request fully emitted
    s.push(b"resp-A".to_vec()); // caller streams the response in
    s.push(b"resp-B".to_vec());
    s.push_end();
    let (chunks, open) = s.take_inbound();
    assert!(!open);
    assert_eq!(s.poll(Some(P3sEvent::Done(Ok(chunks.concat())))), HWR_P3S_DONE);
    assert_eq!(s.result(), b"resp-Aresp-B");
}

#[test]
fn p3s_free_mid_stream() {
    let mut out = P3sOut::new();
    out.chunk(b"req-1".to_vec());
    let mut s = HwrP3Stream::new();
    assert_eq!(s.poll(out.take().pop()), HWR_P3S_OUT);
    drop(s);
}

#[test]
fn p3s_pushes_after_the_end_are_dropped() {
    let mut s = HwrP3Stream::new();
    s.push(b"a".to_vec());
    s.push_end();
    s.push(b"b".to_vec());
    assert_eq!(s.take_inbound(), (vec![b"a".to_vec()], false));
    assert_eq!(s.take_inbound(), (vec![], false));
    assert_eq!(s.poll(None), HWR_P3S_ERROR);
    assert!(s.is_finished());
    assert_eq!(s.poll(Some(P3sEvent::OutEnd)), HWR_P3S_ERROR);
    let mut failed = HwrP3Stream::new();
    assert_eq!(
        failed.poll(Some(P3sEvent::Done(Err("boom".into())))),
        HWR_P3S_ERROR
    );
    assert_eq!(failed.result(), b"boom");
    assert_eq!(
        failed.poll(Some(P3sEvent::Done(Ok(b"late".to_vec())))),
        HWR_P3S_ERROR
    );
    assert_eq!(failed.result(), b"boom");
    let mut ok = HwrP3Stream::new();
    assert_eq!(ok.poll(Some(P3sEvent::Done(Ok(vec![7])))), HWR_P3S_DONE);
    assert_eq!(ok.poll(None), HWR_P3S_DONE);
    assert_eq!(ok.result(), [7]);
}

// ── inference ───────────────────────────────────────────────────────────────

fn run_inference(use_pulley: bool) -> Vec<u8> {
    run_on_backend(use_pulley);
    let mut session = HwrP3Stream::new();
    let mut host = InferenceHost::with_transport(P3sOut::new(), ());
    host.complete(
        vec![ChatMessage {
            role: "user".into(),
            content: "hello".into(),
        }],
        InferenceOpts {
            max_tokens: 64,
            temperature: None,
        },
    )
    .unwrap();
    // Drain the outbound request head until the end.
    let mut head = Vec::new();
    for event in host.transport.as_mut().unwrap().out.take() {
        match session.poll(Some(event)) {
            HWR_P3S_OUT => head.extend_from_slice(session.out_chunk()),
            HWR_P3S_OUT_END => break,
            other => panic!("unexpected status while draining: {other}"),
        }
    }
    let head = String::from_utf8_lossy(&head).into_owned();
    assert!(head.contains("opts: max-tokens=64"));
    assert!(head.contains("hello"));
    assert_eq!(
        head,
        "opts: max-tokens=64 temperature=default\nuser\nhello\n---\n"
    );
    // Push the token deltas in, close the stream.
    for token in [b"Hel".as_slice(), b"lo ".as_slice(), b"world".as_slice()] {
        session.push(token.to_vec());
    }
    session.push_end();
    let (frames, open) = session.take_inbound();
    let mut tokens = Vec::new();
    for frame in frames {
        match token_step(Some(Some(frame))) {
            ProduceStep::Deliver(token) => tokens.push(token),
            _ => panic!("a frame is a token"),
        }
    }
    assert!(!open && matches!(token_step(Some(None)), ProduceStep::Ended));
    let out = inference_run(Ok(tokens));
    assert_eq!(session.poll(Some(P3sEvent::Done(Ok(out)))), HWR_P3S_DONE);
    session.result().to_vec()
}

#[test]
fn cranelift_inference_stream_tokens() {
    assert_eq!(run_inference(false), b"Hello world");
}

#[test]
fn pulley_inference_stream_tokens() {
    assert_eq!(run_inference(true), b"Hello world");
}

#[test]
fn inference_errors_and_framing() {
    let opts = |t: Option<&str>| InferenceOpts {
        max_tokens: 1,
        temperature: t.map(|s| s.to_string()),
    };
    let mut none: InferenceHost<()> = InferenceHost::new();
    assert_eq!(
        none.complete(vec![], opts(None)).unwrap_err(),
        ApiError {
            code: "not-found".into(),
            message: "inference: transport missing".into()
        }
    );
    let mut host = InferenceHost::with_transport(P3sOut::new(), 5u8);
    assert_eq!(host.complete(vec![], opts(Some("0.5"))), Ok(5));
    assert_eq!(
        host.complete(vec![], opts(None)).unwrap_err().message,
        "inference: inbound stream already consumed"
    );
    let out = host.transport.as_mut().unwrap().out.take();
    assert_eq!(out.len(), 4);
    assert!(
        matches!(&out[0], P3sEvent::Out(c) if c == b"opts: max-tokens=1 temperature=0.5\n")
    );
    assert!(matches!(token_step(None), ProduceStep::Wait));
    assert!(matches!(
        token_step(Some(Some(vec![0x68, 0xff]))),
        ProduceStep::Deliver(t) if t == "h\u{fffd}"
    ));
    assert_eq!(
        token_stream_failed("x").message,
        "inference: failed to mint token stream: x"
    );
    assert!(inference_run(Err(token_stream_failed("x"))).is_empty());
}

// ── The typed hosts over the wire ───────────────────────────────────────────

fn names_reply() -> Vec<u8> {
    br#"{"ok":true,"data":[{"id":"pf-1","name":"Growth"},{"id":"pf-2","name":"Income"}]}"#.to_vec()
}

fn run_workspace(use_pulley: bool, mut service: impl FnMut(&[u8]) -> Vec<u8>) -> Vec<u8> {
    run_on_backend(use_pulley);
    let mut session = HwrP3Session::new();
    let request = TransportWorkspaceHost::read_portfolio_names_request().unwrap();
    let reply = serviced(&mut session, request, &mut service);
    let out = workspace_run(TransportWorkspaceHost::read_portfolio_names_reply(Some(
        reply,
    )));
    assert_eq!(session.poll(Some(P3Event::Done(Ok(out)))), HWR_P3_DONE);
    session.result().to_vec()
}

fn assert_typed_workspace(use_pulley: bool) {
    let out = run_workspace(use_pulley, |req| {
        // The typed import emitted exactly the app's host-call wire.
        assert_eq!(req, br#"{"method":"read:portfolio_names"}"#);
        names_reply()
    });
    assert_eq!(String::from_utf8_lossy(&out), "pf-1=Growth;pf-2=Income");
    let out = run_workspace(use_pulley, |_req| {
        br#"{"ok":false,"error":"denied:read:portfolio_names"}"#.to_vec()
    });
    assert_eq!(String::from_utf8_lossy(&out), "ERR:permission-denied");
}

#[test]
fn cranelift_typed_workspace_over_p3() {
    assert_typed_workspace(false);
}

#[test]
fn pulley_typed_workspace_over_p3() {
    assert_typed_workspace(true);
}

fn assert_json_transport(use_pulley: bool) {
    run_on_backend(use_pulley);
    let request = TransportWorkspaceHost::forward_method("read:portfolio_names").unwrap();
    assert_eq!(
        String::from_utf8_lossy(&request),
        r#"{"method":"read:portfolio_names"}"#
    );
    let names = read_names(decode_portfolio_names(&names_reply()));
    assert_eq!(names.len(), 2);
    assert_eq!(names[0].id, "pf-1");
    assert_eq!(names[0].name, "Growth");
    assert_eq!(names[1].id, "pf-2");
    assert_eq!(names[1].name, "Income");
    let denied = read_names(decode_portfolio_names(
        br#"{"ok":false,"error":"denied:read:portfolio_names"}"#,
    ));
    assert!(denied.is_empty());
}

#[test]
fn cranelift_typed_workspace_over_json_transport() {
    assert_json_transport(false);
}

#[test]
fn pulley_typed_workspace_over_json_transport() {
    assert_json_transport(true);
}

fn method_of(req: &[u8]) -> String {
    let v: serde_json::Value = serde_json::from_slice(req).expect("request is JSON");
    v.get("method")
        .and_then(serde_json::Value::as_str)
        .unwrap_or("")
        .to_string()
}

/// Runs the storage guest with every call carried over the round-trip.
fn run_storage(use_pulley: bool, mut service: impl FnMut(&[u8]) -> Vec<u8>) -> Vec<u8> {
    run_on_backend(use_pulley);
    let mut session = HwrP3Session::new();
    let (mut state, mut call) = StorageGuest::start();
    loop {
        let mut send = |request: Result<Vec<u8>, ApiError>| {
            Some(serviced(&mut session, request.unwrap(), &mut service))
        };
        let reply = match call {
            StorageCall::Put { key, value } => StorageReply::Done(
                TransportStorageEventsHost::ack_reply(send(
                    TransportStorageEventsHost::set_request(key, value),
                )),
            ),
            StorageCall::Get { key } => StorageReply::Value(TransportStorageEventsHost::get_reply(
                send(TransportStorageEventsHost::get_request(key)),
            )),
            StorageCall::ListKeys => StorageReply::Keys(
                TransportStorageEventsHost::list_keys_reply(send(
                    TransportStorageEventsHost::list_keys_request(),
                )),
            ),
            StorageCall::Delete { key } => StorageReply::Done(
                TransportStorageEventsHost::ack_reply(send(
                    TransportStorageEventsHost::delete_request(key),
                )),
            ),
            StorageCall::Emit(event) => StorageReply::Done(TransportStorageEventsHost::ack_reply(
                send(TransportStorageEventsHost::emit_request(event)),
            )),
            StorageCall::Finish(out) => {
                assert_eq!(session.poll(Some(P3Event::Done(Ok(out)))), HWR_P3_DONE);
                return session.result().to_vec();
            }
        };
        (state, call) = state.step(reply);
    }
}

fn assert_typed_storage(use_pulley: bool) {
    let mut list_keys_calls = 0u32;
    let out = run_storage(use_pulley, |req| match method_of(req).as_str() {
        // get("greeting") -> the bytes for "hello" as a JSON u8 array.
        "storage_get" => br#"{"ok":true,"data":[104,101,108,108,111]}"#.to_vec(),
        // First list-keys sees 2 keys, second (after delete) sees 1.
        "storage_list_keys" => {
            list_keys_calls += 1;
            if list_keys_calls == 1 {
                br#"{"ok":true,"data":["greeting","count"]}"#.to_vec()
            } else {
                br#"{"ok":true,"data":["greeting"]}"#.to_vec()
            }
        }
        // set / delete / clear / emit_event just acknowledge.
        "storage_set" | "storage_delete" | "storage_clear" | "emit_event" => {
            br#"{"ok":true}"#.to_vec()
        }
        other => panic!("unexpected method {other:?}"),
    });
    assert_eq!(String::from_utf8_lossy(&out), "hello|2|1");
    assert_eq!(list_keys_calls, 2, "both list-keys calls serviced");

    let out = run_storage(use_pulley, |_req| {
        br#"{"ok":false,"error":"denied:storage"}"#.to_vec()
    });
    assert_eq!(String::from_utf8_lossy(&out), "ERR:permission-denied");
}

#[test]
fn cranelift_typed_storage_events_over_p3() {
    assert_typed_storage(false);
}

#[test]
fn pulley_typed_storage_events_over_p3() {
    assert_typed_storage(true);
}

#[test]
fn stored_values_survive_a_string_store() {
    // A caller that keeps each value as the string it was sent.
    let mut kv: HashMap<String, String> = HashMap::new();
    let out = run_storage(false, |req| {
        let v: serde_json::Value = serde_json::from_slice(req).unwrap();
        let text = |k: &str| v[k].as_str().unwrap_or_default().to_string();
        match text("method").as_str() {
            "storage_set" => {
                kv.insert(text("key"), text("value"));
                br#"{"ok":true}"#.to_vec()
            }
            "storage_get" => format!(r#"{{"ok":true,"data":"{}"}}"#, kv[&text("key")]).into_bytes(),
            "storage_list_keys" => {
                let keys: Vec<String> = kv.keys().map(|k| format!("\"{k}\"")).collect();
                format!(r#"{{"ok":true,"data":[{}]}}"#, keys.join(",")).into_bytes()
            }
            "storage_delete" => {
                kv.remove(&text("key"));
                br#"{"ok":true}"#.to_vec()
            }
            "emit_event" => {
                assert_eq!(text("name"), "ready");
                assert_eq!(text("payload"), "b2s=");
                br#"{"ok":true}"#.to_vec()
            }
            other => panic!("unexpected method {other:?}"),
        }
    });
    assert_eq!(String::from_utf8_lossy(&out), "hello|2|1");
    assert_eq!(kv.get("greeting").map(String::as_str), Some("aGVsbG8="));
}

/// The quickstart plugin over the unified host.
fn run_plugin(
    use_pulley: bool,
    mut service: impl FnMut(&[u8]) -> Vec<u8>,
) -> Result<Vec<u8>, String> {
    run_on_backend(use_pulley);
    let mut session = HwrP3Session::new();
    let mut send = |request: Result<Vec<u8>, ApiError>| {
        Some(serviced(&mut session, request.unwrap(), &mut service))
    };
    let mut run = || -> Result<Vec<u8>, String> {
        send(TransportPluginHost::log_request(
            Level::Info,
            "run start".into(),
        ));
        let names = TransportPluginHost::read_portfolio_names_reply(send(
            TransportPluginHost::read_portfolio_names_request(),
        ))
        .map_err(|e| e.message)?;
        TransportPluginHost::ack_reply(send(TransportPluginHost::set_request(
            "greeting".into(),
            b"hello".to_vec(),
        )))
        .map_err(|e| e.message)?;
        let back = TransportPluginHost::get_reply(send(TransportPluginHost::get_request(
            "greeting".into(),
        )))
        .map_err(|e| e.message)?;
        let ok = back.as_deref() == Some(b"hello".as_slice());
        TransportPluginHost::ack_reply(send(TransportPluginHost::emit_request(PluginEvent {
            kind: "quickstart-ran".into(),
            payload: b"ok".to_vec(),
        })))
        .map_err(|e| e.message)?;
        Ok(format!("{}|{}", names.len(), ok as u8).into_bytes())
    };
    let result = run();
    match session.poll(Some(P3Event::Done(result))) {
        HWR_P3_DONE => Ok(session.result().to_vec()),
        HWR_P3_ERROR => Err(String::from_utf8_lossy(session.result()).into_owned()),
        other => panic!("unexpected status {other}"),
    }
}

fn assert_real_plugin(use_pulley: bool) {
    let mut kv: HashMap<String, Vec<u8>> = HashMap::new();
    let out = run_plugin(use_pulley, |req| {
        let v: serde_json::Value = serde_json::from_slice(req).expect("json request");
        match method_of(req).as_str() {
            "read:portfolio_names" => {
                br#"{"ok":true,"data":[{"id":"p1","name":"Growth"},{"id":"p2","name":"Income"}]}"#
                    .to_vec()
            }
            "storage_set" => {
                let key = v["key"].as_str().unwrap_or_default().to_string();
                let value = v["value"]
                    .as_array()
                    .map(|a| {
                        a.iter()
                            .filter_map(|n| n.as_u64().map(|x| x as u8))
                            .collect()
                    })
                    .unwrap_or_default();
                kv.insert(key, value);
                br#"{"ok":true}"#.to_vec()
            }
            "storage_get" => match kv.get(v["key"].as_str().unwrap_or_default()) {
                Some(bytes) => {
                    let list: Vec<String> = bytes.iter().map(|b| b.to_string()).collect();
                    format!(r#"{{"ok":true,"data":[{}]}}"#, list.join(",")).into_bytes()
                }
                None => br#"{"ok":true,"data":null}"#.to_vec(),
            },
            "emit_event" | "log" => br#"{"ok":true}"#.to_vec(),
            other => panic!("unexpected method {other:?}"),
        }
    })
    .expect("granted run succeeds");
    assert_eq!(String::from_utf8_lossy(&out), "2|1");
    assert_eq!(
        kv.get("greeting").map(Vec::as_slice),
        Some(b"hello".as_slice())
    );

    let err = run_plugin(use_pulley, |req| match method_of(req).as_str() {
        "read:portfolio_names" => br#"{"ok":false,"error":"denied:read:portfolio_names"}"#.to_vec(),
        "log" => br#"{"ok":true}"#.to_vec(),
        other => panic!("denied run should not reach {other:?}"),
    })
    .expect_err("denied run returns Err");
    assert!(err.contains("denied"));
}

#[test]
fn cranelift_real_plugin_over_p3() {
    assert_real_plugin(false);
}

#[test]
fn pulley_real_plugin_over_p3() {
    assert_real_plugin(true);
}

#[test]
fn requests_on_the_wire() {
    let text = |r: Result<Vec<u8>, ApiError>| String::from_utf8(r.unwrap()).unwrap();
    assert_eq!(
        text(TransportPluginHost::set_request("k".into(), vec![0, 255])),
        r#"{"key":"k","method":"storage_set","value":[0,255]}"#
    );
    assert_eq!(
        text(TransportPluginHost::get_request("\"q\"".into())),
        r#"{"key":"\"q\"","method":"storage_get"}"#
    );
    for (level, name) in [
        (Level::Trace, "trace"),
        (Level::Debug, "debug"),
        (Level::Info, "info"),
        (Level::Warn, "warn"),
        (Level::Error, "error"),
    ] {
        assert_eq!(
            text(TransportPluginHost::log_request(level, "m".into())),
            format!(r#"{{"level":"{name}","message":"m","method":"log"}}"#)
        );
    }
    let event = || PluginEvent {
        kind: "ready".into(),
        payload: b"ok".to_vec(),
    };
    assert_eq!(
        text(TransportPluginHost::emit_request(event())),
        r#"{"method":"emit_event","name":"ready","payload":[111,107]}"#
    );
    assert_eq!(
        text(TransportStorageEventsHost::emit_request(event())),
        r#"{"method":"emit_event","name":"ready","payload":"b2s="}"#
    );
    assert_eq!(
        text(TransportStorageEventsHost::set_request(
            "k".into(),
            b"hello".to_vec()
        )),
        r#"{"key":"k","method":"storage_set","value":"aGVsbG8="}"#
    );
    assert_eq!(
        text(TransportStorageEventsHost::delete_request("k".into())),
        r#"{"key":"k","method":"storage_delete"}"#
    );
    assert_eq!(
        text(TransportStorageEventsHost::clear_request()),
        r#"{"method":"storage_clear"}"#
    );
    assert_eq!(
        text(TransportStorageEventsHost::list_keys_request()),
        r#"{"method":"storage_list_keys"}"#
    );
}

#[test]
fn replies_that_fail() {
    // The transport closed.
    assert_eq!(
        TransportWorkspaceHost::read_portfolio_names_reply(None).unwrap_err(),
        ApiError {
            code: "not-found".into(),
            message: "host transport closed before the call was serviced".into()
        }
    );
    assert_eq!(
        TransportPluginHost::get_reply(None).unwrap_err().message,
        "host transport closed"
    );
    // No JSON.
    let bad = decode_portfolio_names(b"{").unwrap_err();
    assert_eq!(bad.code, "bad-response");
    assert!(bad.message.starts_with("EOF while parsing"));
    // Denials, with and without a text.
    for (reply, message) in [
        (r#"{"ok":false,"error":"no"}"#, "no"),
        (r#"{"ok":false}"#, "denied"),
        (r#"{"ok":1,"error":2}"#, "denied"),
        ("[]", "denied"),
        ("null", "denied"),
    ] {
        let e = TransportStorageEventsHost::ack_reply(Some(reply.into())).unwrap_err();
        assert_eq!(e.code, "permission-denied");
        assert_eq!(e.message, message);
    }
    // A value that is no base64.
    let e = TransportStorageEventsHost::get_reply(Some(br#"{"ok":true,"data":"@"}"#.to_vec()))
        .unwrap_err();
    assert_eq!(
        e,
        ApiError {
            code: "bad-response".into(),
            message: "storage value was not valid base64".into()
        }
    );
}

#[test]
fn replies_that_succeed() {
    let some = |s: &str| Some(s.as_bytes().to_vec());
    // Missing or odd data.
    assert_eq!(decode_portfolio_names(br#"{"ok":true}"#).unwrap(), vec![]);
    assert_eq!(
        decode_portfolio_names(br#"{"ok":true,"data":[{"id":1},{"name":"n"},5]}"#).unwrap(),
        vec![
            PortfolioName {
                id: "".into(),
                name: "".into()
            },
            PortfolioName {
                id: "".into(),
                name: "n".into()
            },
            PortfolioName {
                id: "".into(),
                name: "".into()
            },
        ]
    );
    // Numbers keep their low eight bits; what is no whole number is left out.
    assert_eq!(
        TransportPluginHost::get_reply(some(r#"{"ok":true,"data":[104,360,-1,1.5,"x"]}"#)).unwrap(),
        Some(b"hh".to_vec())
    );
    assert_eq!(
        TransportPluginHost::get_reply(some(r#"{"ok":true,"data":null}"#)).unwrap(),
        None
    );
    assert_eq!(
        TransportPluginHost::get_reply(some(r#"{"ok":true,"data":"x"}"#)).unwrap(),
        Some(vec![])
    );
    assert_eq!(
        TransportStorageEventsHost::get_reply(some(r#"{"ok":true,"data":"aGk="}"#)).unwrap(),
        Some(b"hi".to_vec())
    );
    assert_eq!(
        TransportStorageEventsHost::get_reply(some(r#"{"ok":true}"#)).unwrap(),
        None
    );
    assert_eq!(
        TransportStorageEventsHost::list_keys_reply(some(r#"{"ok":true,"data":["a",1,"b"]}"#))
            .unwrap(),
        ["a", "b"]
    );
    assert_eq!(
        TransportStorageEventsHost::list_keys_reply(some(r#"{"ok":true,"data":{}}"#)).unwrap(),
        Vec::<String>::new()
    );
}

#[test]
fn calls_that_are_not_wired() {
    let w = TransportWorkspaceHost::read_sheet_structure("p".into()).unwrap_err();
    assert_eq!(w.code, "not-found");
    assert_eq!(
        w.message,
        "read-sheet-structure: not wired in this C1 slice (read-portfolio-names only)"
    );
    for e in [
        TransportWorkspaceHost::read_asset_count("p".into()),
        TransportWorkspaceHost::read_currency_rates(),
        TransportWorkspaceHost::read_aggregated_values("p".into()),
        TransportWorkspaceHost::write_external_file("f".into(), vec![]),
        TransportPluginHost::read_sheet_structure("p".into()),
        TransportPluginHost::read_asset_count("p".into()),
        TransportPluginHost::read_currency_rates(),
        TransportPluginHost::read_aggregated_values("p".into()),
        TransportPluginHost::write_external_file("f".into(), vec![]),
        TransportPluginHost::delete("k".into()),
        TransportPluginHost::clear(),
    ] {
        assert_eq!(e.unwrap_err().code, "not-found");
    }
    assert_eq!(
        TransportPluginHost::list_keys().unwrap_err().message,
        "storage.list-keys: not wired in the C1 keystone (follows the proven per-capability bridge)"
    );
}

#[test]
fn json_values() {
    let v = parse_json(br#"{"a":[1,-2,1.5,true,null,"t"],"b":{"c":"d"}}"#).unwrap();
    let a = v.get("a").unwrap();
    match a {
        Json::Array(items) => {
            assert_eq!(items[0].as_u64(), Some(1));
            assert_eq!(items[1].as_u64(), None);
            assert!(matches!(&items[1], Json::Number(None, t) if t == "-2"));
            assert!(matches!(&items[2], Json::Number(None, t) if t == "1.5"));
            assert!(items[3].is_true());
            assert!(matches!(items[4], Json::Null));
            assert_eq!(items[5].as_str(), Some("t"));
        }
        other => panic!("{other:?}"),
    }
    assert_eq!(v.get("b").unwrap().get("c").unwrap().as_str(), Some("d"));
    assert!(v.get("z").is_none() && a.get("a").is_none());
    assert!(matches!(v.clone().get("b"), Some(Json::Object(_))));
    assert!(parse_json(b"nope").is_err());

    let bytes = write_object(vec![
        ("z".into(), FieldValue::Text("\n\"é".into())),
        ("a".into(), FieldValue::Bytes(vec![0, 7])),
    ])
    .unwrap();
    let back = parse_json(&bytes).unwrap();
    assert_eq!(back.get("z").unwrap().as_str(), Some("\n\"é"));
    assert_eq!(decode_bytes(back.get("a").unwrap()), vec![0, 7]);
}

#[test]
fn replies_are_decided_on_values() {
    let ok = |data: Json| {
        Json::Object(vec![
            ("ok".into(), Json::Bool(true)),
            ("data".into(), data),
        ])
    };
    let names = Json::Array(vec![Json::Object(vec![
        ("id".into(), Json::Text("i".into())),
        ("name".into(), Json::Text("n".into())),
    ])]);
    let data = decode_reply(&ok(names)).unwrap();
    assert_eq!(decode_names(&data)[0].name, "n");
    assert_eq!(
        decode_texts(&Json::Array(vec![Json::Null, Json::Text("t".into())])),
        ["t"]
    );
    assert!(matches!(
        decode_reply(&Json::Object(vec![("ok".into(), Json::Bool(true))])),
        Ok(Json::Null)
    ));
    assert_eq!(decode_reply(&Json::Null).unwrap_err().message, "denied");
    assert_eq!(
        read_reply(None, "gone").unwrap_err(),
        ApiError {
            code: "not-found".into(),
            message: "gone".into()
        }
    );
}
