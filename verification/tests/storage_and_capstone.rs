use hellohq_wasm_runtime::api::{ApiError, Level, PluginEvent};
use hellohq_wasm_runtime::capstone::CapstoneHarness;
use hellohq_wasm_runtime::engine::run_component_host_import;
use hellohq_wasm_runtime::guests::{read_names, StorageCall, StorageGuest, StorageReply};
use hellohq_wasm_runtime::storage_events::{
    StorageEventsHost, EVENTS_MAX_COUNT, EVENT_MAX_PAYLOAD_BYTES, STORAGE_MAX_KEYS,
    STORAGE_MAX_TOTAL_BYTES,
};
use hellohq_wasm_runtime::wasi_guests::GoGuestState;

/// Runs a component that calls into its host on a backend. The guests of these
/// tests are not compiled here: what a guest makes of its host's replies is the
/// library's `guests` module, which runs beside the backend and not on it.
fn run_on_backend(use_pulley: bool) {
    assert_eq!(run_component_host_import(use_pulley, 21).unwrap(), 42);
}

#[test]
fn storage_round_trip_granted() {
    let mut h = StorageEventsHost::new(true);
    h.set("greeting".into(), b"hello".to_vec()).unwrap();
    h.set("count".into(), vec![7]).unwrap();
    assert_eq!(h.get("greeting".into()).unwrap(), Some(b"hello".to_vec()));
    assert_eq!(h.list_keys().unwrap().len(), 2);
    h.delete("count".into()).unwrap();
    assert_eq!(h.list_keys().unwrap().len(), 1);
    assert_eq!(h.get("count".into()).unwrap(), None);
    h.clear().unwrap();
    assert!(h.list_keys().unwrap().is_empty());
}

#[test]
fn storage_denied_returns_permission_denied() {
    let mut h = StorageEventsHost::new(false);
    assert_eq!(
        h.set("k".into(), vec![1]).unwrap_err().code,
        "permission-denied"
    );
    assert_eq!(h.get("k".into()).unwrap_err().code, "permission-denied");
    assert_eq!(h.delete("k".into()).unwrap_err().code, "permission-denied");
    assert_eq!(h.clear().unwrap_err().code, "permission-denied");
    assert_eq!(h.list_keys().unwrap_err().code, "permission-denied");
}

#[test]
fn storage_key_count_quota() {
    let mut h = StorageEventsHost::new(true);
    for i in 0..STORAGE_MAX_KEYS {
        h.set(format!("k{i}"), vec![0]).unwrap();
    }
    // One more distinct key trips the count cap.
    assert_eq!(
        h.set("overflow".into(), vec![0]).unwrap_err().code,
        "quota-exceeded"
    );
    // Overwriting an existing key still works (not a new key).
    h.set("k0".into(), vec![1, 2]).unwrap();
}

#[test]
fn storage_total_bytes_quota() {
    let mut h = StorageEventsHost::new(true);
    let big = vec![0u8; STORAGE_MAX_TOTAL_BYTES + 1];
    assert_eq!(h.set("big".into(), big).unwrap_err().code, "quota-exceeded");
}

#[test]
fn storage_bytes_quota_counts_the_displaced_value() {
    let mut h = StorageEventsHost::new(true);
    h.set("a".into(), vec![1; STORAGE_MAX_TOTAL_BYTES]).unwrap();
    let err = h.set("b".into(), vec![1]).unwrap_err();
    assert_eq!(
        err,
        ApiError {
            code: "quota-exceeded".into(),
            message: "storage: total bytes quota exceeded".into()
        }
    );
    // A refused write leaves the store as it was.
    assert_eq!(h.list_keys().unwrap(), ["a"]);
    // Replacing the large value makes room for itself.
    h.set("a".into(), vec![2; STORAGE_MAX_TOTAL_BYTES]).unwrap();
    assert_eq!(h.stored_value("a").unwrap()[0], 2);
    h.set("a".into(), vec![3]).unwrap();
    h.set("b".into(), vec![4]).unwrap();
    assert_eq!(h.get("a".into()).unwrap(), Some(vec![3]));
    assert_eq!(h.get("b".into()).unwrap(), Some(vec![4]));
    // Deleting an absent key is a success without effect.
    h.delete("absent".into()).unwrap();
    assert_eq!(h.list_keys().unwrap().len(), 2);
}

#[test]
fn storage_key_quota_message() {
    let mut h = StorageEventsHost::new(true);
    for i in 0..STORAGE_MAX_KEYS {
        h.set(format!("k{i}"), vec![]).unwrap();
    }
    assert_eq!(
        h.set("one more".into(), vec![]).unwrap_err().message,
        "storage: key count quota exceeded"
    );
    let mut d = StorageEventsHost::new(false);
    assert_eq!(
        d.clear().unwrap_err().message,
        "storage: capability not granted"
    );
}

#[test]
fn events_emit_captures_and_caps() {
    let mut h = StorageEventsHost::new(false); // events ignore `granted`
    h.emit(PluginEvent {
        kind: "ready".into(),
        payload: b"ok".to_vec(),
    })
    .unwrap();
    assert_eq!(h.captured_events().len(), 1);
    assert_eq!(h.captured_events()[0].kind, "ready");
    assert_eq!(h.captured_events()[0].payload, b"ok");

    // Oversized payload → quota-exceeded.
    let big = vec![0u8; EVENT_MAX_PAYLOAD_BYTES + 1];
    assert_eq!(
        h.emit(PluginEvent {
            kind: "x".into(),
            payload: big,
        })
        .unwrap_err()
        .code,
        "quota-exceeded"
    );

    // Past the count cap → rate-limited.
    while h.captured_events().len() < EVENTS_MAX_COUNT {
        h.emit(PluginEvent {
            kind: "k".into(),
            payload: vec![],
        })
        .unwrap();
    }
    assert_eq!(
        h.emit(PluginEvent {
            kind: "over".into(),
            payload: vec![],
        })
        .unwrap_err()
        .code,
        "rate-limited"
    );
}

#[test]
fn event_errors_and_their_order() {
    let mut h = StorageEventsHost::new(true);
    h.emit(PluginEvent {
        kind: "edge".into(),
        payload: vec![0; EVENT_MAX_PAYLOAD_BYTES],
    })
    .unwrap();
    while h.captured_events().len() < EVENTS_MAX_COUNT {
        h.emit(PluginEvent {
            kind: "k".into(),
            payload: vec![],
        })
        .unwrap();
    }
    // The size is checked before the count.
    let err = h
        .emit(PluginEvent {
            kind: "x".into(),
            payload: vec![0; EVENT_MAX_PAYLOAD_BYTES + 1],
        })
        .unwrap_err();
    assert_eq!(err.message, "events: payload too large");
    let err = h
        .emit(PluginEvent {
            kind: "x".into(),
            payload: vec![],
        })
        .unwrap_err();
    assert_eq!(err.message, "events: emit rate cap reached");
    assert_eq!(h.captured_events().len(), EVENTS_MAX_COUNT);
}

#[test]
fn workspace_gate_chokepoint() {
    let mut granted = CapstoneHarness::new(true);
    assert_eq!(granted.read_portfolio_names().unwrap().len(), 2);

    let mut denied = CapstoneHarness::new(false);
    assert_eq!(
        denied.read_portfolio_names().unwrap_err().code,
        "permission-denied"
    );
}

#[test]
fn storage_delegates_to_composed_host() {
    let mut h = CapstoneHarness::new(true);
    h.set("greeting".into(), b"hello".to_vec()).unwrap();
    assert_eq!(h.stored_value("greeting"), Some(&b"hello".to_vec()));
    assert_eq!(h.get("greeting".into()).unwrap(), Some(b"hello".to_vec()));

    let mut d = CapstoneHarness::new(false);
    assert_eq!(
        d.set("k".into(), vec![1]).unwrap_err().code,
        "permission-denied"
    );
}

#[test]
fn log_sink_captures() {
    let mut h = CapstoneHarness::new(true);
    h.write(Level::Info, "hello".into());
    h.write(Level::Debug, "world".into());
    assert_eq!(h.captured_logs().len(), 2);
    assert_eq!(h.captured_logs()[0].level, Level::Info);
    assert_eq!(h.captured_logs()[0].message, "hello");
}

#[test]
fn capstone_unprovided_calls_and_names() {
    let mut h = CapstoneHarness::new(true);
    let names = h.read_portfolio_names().unwrap();
    assert_eq!((names[0].id.as_str(), names[0].name.as_str()), ("p1", "Growth"));
    assert_eq!((names[1].id.as_str(), names[1].name.as_str()), ("p2", "Income"));
    for (err, what) in [
        (h.read_sheet_structure("p".into()).unwrap_err(), "read-sheet-structure"),
        (h.read_asset_count("p".into()).unwrap_err(), "read-asset-count"),
        (h.read_currency_rates().unwrap_err(), "read-currency-rates"),
        (h.read_aggregated_values("p".into()).unwrap_err(), "read-aggregated-values"),
        (
            h.write_external_file("f".into(), vec![]).unwrap_err(),
            "write-external-file",
        ),
    ] {
        assert_eq!(err.code, "not-found");
        assert_eq!(
            err.message,
            format!("workspace: {what} not provided by the capstone harness")
        );
    }
    assert_eq!(
        CapstoneHarness::new(false)
            .read_portfolio_names()
            .unwrap_err()
            .message,
        "workspace: capability not granted"
    );
    h.delete("x".into()).unwrap();
    h.set("x".into(), vec![1]).unwrap();
    assert_eq!(h.list_keys().unwrap(), ["x"]);
    h.clear().unwrap();
    assert_eq!(h.get("x".into()).unwrap(), None);
}

/// The quickstart plugin: logs, reads the names, stores a greeting and reads it
/// back, emits an event, and returns `"<n-portfolios>|<roundtrip-ok>"`.
fn quickstart(host: &mut CapstoneHarness) -> Result<Vec<u8>, String> {
    host.write(Level::Info, "run start".into());
    let names = host.read_portfolio_names().map_err(|e| e.message)?;
    host.write(
        Level::Info,
        format!("read {} portfolio name(s)", names.len()),
    );
    host.set("greeting".into(), b"hello".to_vec())
        .map_err(|e| e.message)?;
    let back = host.get("greeting".into()).map_err(|e| e.message)?;
    let ok = back.as_deref() == Some(b"hello".as_slice());
    host.emit(PluginEvent {
        kind: "quickstart-ran".into(),
        payload: b"ok".to_vec(),
    })
    .map_err(|e| e.message)?;
    host.write(Level::Info, "run done".into());
    Ok(format!("{}|{}", names.len(), ok as u8).into_bytes())
}

fn assert_capstone_granted(use_pulley: bool) {
    run_on_backend(use_pulley);
    let mut host = CapstoneHarness::new(true);
    let summary = quickstart(&mut host).expect("granted run returns Ok");
    assert_eq!(String::from_utf8_lossy(&summary), "2|1");
    assert_eq!(
        host.stored_value("greeting").map(Vec::as_slice),
        Some(b"hello".as_slice())
    );
    let events = host.captured_events();
    assert_eq!(events.len(), 1);
    assert_eq!(events[0].0, "quickstart-ran");
    assert_eq!(events[0].1, b"ok");
    assert!(!host.captured_logs().is_empty());
    assert!(host
        .captured_logs()
        .iter()
        .any(|l| l.message.contains("read 2 portfolio name")));
}

fn assert_capstone_denied(use_pulley: bool) {
    run_on_backend(use_pulley);
    let mut host = CapstoneHarness::new(false);
    let err = quickstart(&mut host).expect_err("denied run returns Err");
    assert!(err.contains("capability not granted"));
    assert!(host.stored_value("greeting").is_none());
    assert!(host.captured_events().is_empty());
}

#[test]
fn cranelift_capstone_granted() {
    assert_capstone_granted(false);
}

#[test]
fn pulley_capstone_granted() {
    assert_capstone_granted(true);
}

#[test]
fn cranelift_capstone_denied() {
    assert_capstone_denied(false);
}

#[test]
fn pulley_capstone_denied() {
    assert_capstone_denied(true);
}

#[test]
fn go_guest_granted_runs_end_to_end() {
    let mut state = GoGuestState::new(true);
    let summary = quickstart(&mut state.harness).expect("granted run returns Ok");
    assert_eq!(String::from_utf8_lossy(&summary), "2|1");
    assert_eq!(
        state.harness.stored_value("greeting").map(Vec::as_slice),
        Some(b"hello".as_slice())
    );
    let events = state.harness.captured_events();
    assert_eq!(events.len(), 1);
    assert_eq!(events[0].0, "quickstart-ran");
    assert_eq!(events[0].1, b"ok");
    assert!(state
        .harness
        .captured_logs()
        .iter()
        .any(|l| l.message.contains("read 2 portfolio name")));
}

#[test]
fn go_guest_denied_gate_chokepoint() {
    let mut state = GoGuestState::new(false);
    let err = quickstart(&mut state.harness).expect_err("denied run returns Err");
    assert!(err.contains("capability not granted"));
    assert!(state.harness.stored_value("greeting").is_none());
    assert!(state.harness.captured_events().is_empty());
}

/// Runs the storage guest against the in-memory host.
fn run_storage_guest(host: &mut StorageEventsHost) -> Vec<u8> {
    let (mut state, mut call) = StorageGuest::start();
    loop {
        let reply = match call {
            StorageCall::Put { key, value } => StorageReply::Done(host.set(key, value)),
            StorageCall::Get { key } => StorageReply::Value(host.get(key)),
            StorageCall::ListKeys => StorageReply::Keys(host.list_keys()),
            StorageCall::Delete { key } => StorageReply::Done(host.delete(key)),
            StorageCall::Emit(event) => StorageReply::Done(host.emit(event)),
            StorageCall::Finish(out) => return out,
        };
        (state, call) = state.step(reply);
    }
}

fn assert_storage_granted(use_pulley: bool) {
    run_on_backend(use_pulley);
    let mut host = StorageEventsHost::new(true);
    let summary = run_storage_guest(&mut host);
    assert_eq!(String::from_utf8_lossy(&summary), "hello|2|1");
    let events = host.captured_events();
    assert_eq!(events.len(), 1);
    assert_eq!(events[0].kind, "ready");
    assert_eq!(events[0].payload, b"ok");
}

fn assert_storage_denied(use_pulley: bool) {
    run_on_backend(use_pulley);
    let mut host = StorageEventsHost::new(false);
    let summary = run_storage_guest(&mut host);
    assert_eq!(String::from_utf8_lossy(&summary), "ERR:permission-denied");
    assert!(host.captured_events().is_empty());
}

#[test]
fn cranelift_storage_events_round_trip() {
    assert_storage_granted(false);
}

#[test]
fn pulley_storage_events_round_trip() {
    assert_storage_granted(true);
}

#[test]
fn cranelift_storage_denied() {
    assert_storage_denied(false);
}

#[test]
fn pulley_storage_denied() {
    assert_storage_denied(true);
}

#[test]
fn a_reply_out_of_turn_ends_the_storage_guest() {
    let (state, _) = StorageGuest::start();
    let (state, call) = state.step(StorageReply::Keys(Ok(vec![])));
    assert!(matches!(state, StorageGuest::Finished));
    assert!(matches!(call, StorageCall::Finish(out) if out.is_empty()));
}

fn assert_typed_list(use_pulley: bool) {
    run_on_backend(use_pulley);
    let listed = || {
        vec![
            hellohq_wasm_runtime::api::PortfolioName {
                id: "pf-1".into(),
                name: "Growth".into(),
            },
            hellohq_wasm_runtime::api::PortfolioName {
                id: "pf-2".into(),
                name: "Income".into(),
            },
        ]
    };
    let names = read_names(Ok(listed()));
    assert_eq!(names, listed());
    assert_eq!(names.len(), 2);
    assert_eq!(names[0].id, "pf-1");
    assert_eq!(names[0].name, "Growth");
    assert_eq!(names[1].id, "pf-2");
    assert_eq!(names[1].name, "Income");
    let denied = read_names(Err(ApiError {
        code: "permission-denied".into(),
        message: "denied".into(),
    }));
    assert!(denied.is_empty());
}

#[test]
fn cranelift_typed_list_round_trip() {
    assert_typed_list(false);
}

#[test]
fn pulley_typed_list_round_trip() {
    assert_typed_list(true);
}
