use hellohq_wasm_runtime::engine::{
    add_on, async_double_on, canonical_async_double_on, component_add_on,
    component_async_double_on, doubled_result, engine_if_made, host_import_on, make_async_engine,
    make_engine, p3_engine, p3s_engine, run_add, run_async_double, run_canonical_async_double,
    run_component_add, run_component_async_double, run_component_host_import,
    run_gated_workspace_read, self_test_result, workspace_read_on, ADD_COMPONENT_WAT,
    WORKSPACE_READ_DENIED,
};
use hellohq_wasm_runtime::instance::{
    artifact_if_made, called_result, component_if_compiled, load_component,
};
use hellohq_wasm_runtime::{
    hwr_abi_version, hwr_engine_new, hwr_eval_add, hwr_eval_component_add, hwr_eval_host_import,
    hwr_precompile_component, hwr_read_portfolio_count, hwr_run_async_double,
    hwr_run_canonical_async_double, hwr_run_component_async_double, hwr_self_test, HwrEngine,
    HwrInstance, HWR_ABI_VERSION,
};

/// Loads a component and instantiates it in a store of its own.
fn instance_new(engine: Option<&HwrEngine>, bytes: Option<&[u8]>) -> Option<HwrInstance> {
    let engine = engine?.engine();
    let component = load_component(engine, bytes)?;
    let mut store = wasmtime::Store::new(engine, ());
    let made = wasmtime::component::Linker::new(engine).instantiate(&mut store, &component);
    HwrInstance::from_made(made.map(|instance| (store, instance)))
}

/// Calls an instance's `add`.
fn instance_call_add(inst: Option<&mut HwrInstance>, a: i32, b: i32) -> i64 {
    called_result(inst.map(|h| {
        let add = h
            .instance
            .get_typed_func::<(i32, i32), (i32,)>(&mut h.store, "add")?;
        Ok(add.call(&mut h.store, (a, b))?.0)
    }))
}

#[test]
fn abi_version_is_stable() {
    assert_eq!(hwr_abi_version(), HWR_ABI_VERSION);
}

#[test]
fn abi_version_is_nonzero() {
    assert!(hwr_abi_version() >= 1);
}

#[test]
fn engine_initialises() {
    // The runtime links and a default engine can be created on the host.
    assert_eq!(hwr_self_test(), 1);
}

#[test]
fn self_test_passes() {
    assert_eq!(hwr_self_test(), 1);
}

#[test]
fn cranelift_runs_wasm() {
    assert_eq!(run_add(false, 2, 3).unwrap(), 5);
}

#[test]
fn pulley_interpreter_runs_wasm() {
    // The no-JIT path executes real Wasm and agrees with Cranelift.
    assert_eq!(run_add(true, 20, 22).unwrap(), 42);
}

#[test]
fn eval_add_c_abi_pulley() {
    assert_eq!(hwr_eval_add(1, 2, 3), 5);
}

#[test]
fn cranelift_runs_component() {
    assert_eq!(run_component_add(false, 2, 3).unwrap(), 5);
}

#[test]
fn pulley_runs_component() {
    // Component Model lift/lower works under the no-JIT interpreter too.
    assert_eq!(run_component_add(true, 20, 22).unwrap(), 42);
}

#[test]
fn component_c_abi() {
    assert_eq!(hwr_eval_component_add(1, 2, 3), 5);
}

#[test]
fn cranelift_component_host_import() {
    assert_eq!(run_component_host_import(false, 21).unwrap(), 42);
}

#[test]
fn pulley_component_host_import() {
    // A component calling back into a host import works under no-JIT too.
    assert_eq!(run_component_host_import(true, 21).unwrap(), 42);
}

#[test]
fn cranelift_async_host_import() {
    assert_eq!(run_async_double(false, 21).unwrap(), 42);
}

#[test]
fn pulley_async_host_import() {
    // Async host import suspends/resumes under the no-JIT interpreter too.
    assert_eq!(run_async_double(true, 21).unwrap(), 42);
}

#[test]
fn async_double_c_abi() {
    assert_eq!(hwr_run_async_double(1, 21), 42);
}

#[test]
fn cranelift_component_async() {
    assert_eq!(run_component_async_double(false, 21).unwrap(), 42);
}

#[test]
fn pulley_component_async() {
    assert_eq!(run_component_async_double(true, 21).unwrap(), 42);
}

#[test]
fn component_async_c_abi() {
    assert_eq!(hwr_run_component_async_double(1, 21), 42);
}

#[test]
fn cranelift_canonical_async_lift() {
    // Canonical async ABI (task.return + callback), the wasi:http shape.
    assert_eq!(run_canonical_async_double(false, 21).unwrap(), 42);
}

#[test]
fn pulley_canonical_async_lift() {
    assert_eq!(run_canonical_async_double(true, 21).unwrap(), 42);
}

#[test]
fn workspace_read_granted() {
    // Gate grants → the read host import returns workspace data, both backends.
    assert_eq!(run_gated_workspace_read(false, true, 3).unwrap(), 3);
    assert_eq!(run_gated_workspace_read(true, true, 3).unwrap(), 3);
}

#[test]
fn workspace_read_denied() {
    // Gate denies → the plugin never receives workspace data.
    assert_eq!(
        run_gated_workspace_read(false, false, 3).unwrap(),
        WORKSPACE_READ_DENIED
    );
}

#[test]
fn workspace_read_c_abi() {
    assert_eq!(hwr_read_portfolio_count(1, 1, 5), 5);
    assert_eq!(
        hwr_read_portfolio_count(1, 0, 5),
        WORKSPACE_READ_DENIED as i64
    );
}

#[test]
fn eval_entrypoints_both_backends() {
    for use_pulley in [0, 1] {
        assert_eq!(hwr_eval_add(use_pulley, 2, 3), 5);
        assert_eq!(hwr_eval_component_add(use_pulley, 20, 22), 42);
        assert_eq!(hwr_eval_host_import(use_pulley, 21), 42);
        assert_eq!(hwr_run_async_double(use_pulley, 21), 42);
        assert_eq!(hwr_run_component_async_double(use_pulley, 21), 42);
        assert_eq!(hwr_run_canonical_async_double(use_pulley, 21), 42);
    }
}

#[test]
fn sums_and_doubles_wrap() {
    assert_eq!(run_add(false, i32::MAX, 1).unwrap(), i32::MIN);
    assert_eq!(run_component_add(true, i32::MIN, -1).unwrap(), i32::MAX);
    assert_eq!(run_component_host_import(false, 0x8000_0001).unwrap(), 2);
    assert_eq!(run_async_double(false, i32::MIN).unwrap(), 0);
    assert_eq!(run_component_async_double(false, u32::MAX).unwrap(), u32::MAX - 1);
    assert_eq!(run_canonical_async_double(false, 0x8000_0003).unwrap(), 6);
}

#[test]
fn doubles_of_the_c_interface_do_not_wrap() {
    for x in [0, 1, -1, 21, -21, 1 << 30, -(1 << 30) - 1, i32::MAX, i32::MIN] {
        let twice = 2 * x as i64;
        assert_eq!(hwr_eval_host_import(0, x), twice);
        assert_eq!(hwr_run_async_double(0, x), twice);
        assert_eq!(hwr_run_component_async_double(0, x), twice);
        assert_eq!(hwr_run_canonical_async_double(0, x), twice);
    }
    assert_eq!(hwr_eval_host_import(1, -1), -2);
    assert_eq!(hwr_run_async_double(1, 1 << 30), 1 << 31);
    assert_eq!(doubled_result(Ok(4_294_967_294), -1), -2);
    assert_eq!(doubled_result(Ok(4_294_967_294), i32::MAX), 4_294_967_294);
    assert_eq!(doubled_result(Ok(0), i32::MIN), -4_294_967_296);
    assert_eq!(doubled_result(Err(wasmtime::Error::msg("no")), 1), i64::MIN);
}

#[test]
fn engines_for_the_transports_can_be_made() {
    for use_pulley in [false, true] {
        assert!(make_engine(use_pulley).is_ok());
        assert!(p3_engine(use_pulley).is_ok());
        assert!(p3s_engine(use_pulley).is_some());
        // The backend is the one that was asked for.
        let engine = make_engine(use_pulley).unwrap();
        let other = make_engine(!use_pulley).unwrap();
        assert!(engine.is_pulley() == use_pulley);
        assert!(other.is_pulley() != use_pulley);
    }
}

#[test]
fn the_async_abi_is_on_only_where_it_was_chosen() {
    for use_pulley in [false, true] {
        // A component that is lifted with the async ABI is refused without it.
        assert!(canonical_async_double_on(make_engine(use_pulley), 4).is_err());
        assert!(canonical_async_double_on(p3_engine(use_pulley), 4).is_err());
        let handle = HwrEngine::from_made(make_engine(use_pulley)).unwrap();
        assert!(canonical_async_double_on(Ok(handle.engine().clone()), 4).is_err());
        assert_eq!(canonical_async_double_on(make_async_engine(use_pulley), 4).unwrap(), 8);
        let streaming = p3s_engine(use_pulley).unwrap();
        assert_eq!(canonical_async_double_on(Ok(streaming), 4).unwrap(), 8);
    }
}

#[test]
fn engine_lifecycle_both_backends() {
    for use_pulley in [0, 1] {
        let eng = hwr_engine_new(use_pulley);
        assert!(eng.is_some(), "engine_new failed (use_pulley={use_pulley})");
        drop(eng);
    }
}

#[test]
fn engine_handle_null_safe() {
    let eng = hwr_engine_new(0);
    assert!(eng.is_some());
    drop(eng);
}

#[test]
fn null_handles_are_safe() {
    assert_eq!(instance_call_add(None, 1, 2), i64::MIN);
    assert!(instance_new(None, Some(b"")).is_none());
    let eng = hwr_engine_new(0).unwrap();
    assert!(instance_new(Some(&eng), None).is_none());
    assert!(hwr_precompile_component(None, Some(b"")).is_none());
    assert!(hwr_precompile_component(Some(&eng), None).is_none());
    assert!(instance_new(Some(&eng), Some(b"no component")).is_none());
    assert!(hwr_precompile_component(Some(&eng), Some(b"no component")).is_none());
}

#[test]
fn handle_lifecycle_component() {
    // One engine → instantiate component → call → free, on the Pulley backend.
    let eng = hwr_engine_new(1).unwrap();
    let mut inst = instance_new(Some(&eng), Some(ADD_COMPONENT_WAT.as_bytes())).unwrap();
    assert_eq!(instance_call_add(Some(&mut inst), 20, 22), 42);
    // A second call on the same instance reuses the store.
    assert_eq!(instance_call_add(Some(&mut inst), 1, 2), 3);
}

#[test]
fn handle_lifecycle_call_add() {
    let eng = hwr_engine_new(0).unwrap();
    let mut inst = instance_new(Some(&eng), Some(ADD_COMPONENT_WAT.as_bytes()))
        .expect("instance_new failed");
    assert_eq!(instance_call_add(Some(&mut inst), 40, 2), 42);
}

#[test]
fn precompiling_gives_an_artifact() {
    let eng = hwr_engine_new(1).unwrap();
    let artifact =
        hwr_precompile_component(Some(&eng), Some(ADD_COMPONENT_WAT.as_bytes())).unwrap();
    assert!(!artifact.is_empty());
    assert_ne!(artifact, ADD_COMPONENT_WAT.as_bytes());
}

#[test]
fn an_instance_comes_from_a_compiled_component() {
    let eng = hwr_engine_new(0).unwrap();
    let mut inst = instance_new(Some(&eng), Some(ADD_COMPONENT_WAT.as_bytes())).unwrap();
    assert_eq!(instance_call_add(Some(&mut inst), -5, 3), -2);
    // A component without `add` can be instantiated, but not called.
    let mut inst = instance_new(Some(&eng), Some(b"(component)")).unwrap();
    assert_eq!(instance_call_add(Some(&mut inst), 1, 2), i64::MIN);
}

#[test]
fn a_loaded_component_comes_from_its_bytes() {
    let eng = hwr_engine_new(0).unwrap();
    assert!(load_component(eng.engine(), None).is_none());
    assert!(load_component(eng.engine(), Some(b"no component")).is_none());
    // Other bytes give another component.
    let exports = |bytes: &[u8]| {
        let component = load_component(eng.engine(), Some(bytes)).unwrap();
        component.get_export_index(None, "add").is_some()
    };
    assert!(exports(ADD_COMPONENT_WAT.as_bytes()));
    assert!(!exports(b"(component)"));
    let compiled = wasmtime::component::Component::new(eng.engine(), ADD_COMPONENT_WAT);
    let component = component_if_compiled(compiled).unwrap();
    assert!(component.get_export_index(None, "add").is_some());
}

#[test]
fn the_outcome_of_a_call_is_reported() {
    assert_eq!(called_result(Some(Ok(42))), 42);
    assert_eq!(called_result(Some(Ok(i32::MIN))), i32::MIN as i64);
    assert_eq!(called_result(Some(Err(wasmtime::Error::msg("trap")))), i64::MIN);
    assert_eq!(called_result(None), i64::MIN);
}

#[test]
fn self_test_tells_success_from_failure() {
    assert_eq!(self_test_result(&make_engine(false)), 1);
    assert_eq!(self_test_result(&Err(wasmtime::Error::msg("no engine"))), 0);
}

#[test]
fn programs_report_the_error_of_a_missing_engine() {
    let none = || Err(wasmtime::Error::msg("no engine"));
    for message in [
        add_on(none(), 1, 2).unwrap_err().to_string(),
        component_add_on(none(), 1, 2).unwrap_err().to_string(),
        host_import_on(none(), 1).unwrap_err().to_string(),
        workspace_read_on(none(), true, 1).unwrap_err().to_string(),
        async_double_on(none(), 1).unwrap_err().to_string(),
        component_async_double_on(none(), 1).unwrap_err().to_string(),
        canonical_async_double_on(none(), 1).unwrap_err().to_string(),
    ] {
        assert_eq!(message, "no engine");
    }
    assert_eq!(add_on(make_engine(false), 1, 2).unwrap(), 3);
    assert_eq!(canonical_async_double_on(make_async_engine(true), 4).unwrap(), 8);
}

#[test]
fn handles_exist_where_something_was_made() {
    assert!(engine_if_made(make_engine(true)).unwrap().is_pulley());
    assert!(engine_if_made(Err(wasmtime::Error::msg("no"))).is_none());
    assert!(HwrEngine::from_made(make_engine(false)).is_some());
    assert!(HwrEngine::from_made(Err(wasmtime::Error::msg("no"))).is_none());
    assert!(HwrInstance::from_made(Err(wasmtime::Error::msg("no"))).is_none());
    assert!(component_if_compiled(Err(wasmtime::Error::msg("no"))).is_none());
    assert_eq!(artifact_if_made(Ok(vec![1, 2])), Some(vec![1, 2]));
    assert_eq!(artifact_if_made(Err(wasmtime::Error::msg("no"))), None);
}
