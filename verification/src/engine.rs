//! The WebAssembly engine: how it is configured, and the small programs that
//! prove a backend runs.
//!
//! Two backends are offered: the Cranelift compiler, and the Pulley interpreter
//! for hosts without a just-in-time compiler.
use vstd::prelude::*;

verus! {

/// `wasmtime`'s engine configuration.
#[verifier::external_type_specification]
#[verifier::external_body]
pub struct ExConfig(wasmtime::Config);

/// `wasmtime`'s engine.
#[verifier::external_type_specification]
#[verifier::external_body]
pub struct ExEngine(wasmtime::Engine);

/// `wasmtime`'s error.
#[verifier::external_type_specification]
#[verifier::external_body]
pub struct ExWasmError(wasmtime::Error);

/// The settings of an engine that the runtime chooses.
#[verifier::ext_equal]
pub struct EngineSettings {
    /// Whether the Pulley interpreter was chosen as the target.
    pub pulley: bool,
    /// Whether components are supported.
    pub component_model: bool,
    /// Whether components support the async ABI.
    pub component_async: bool,
    /// Whether streams and futures can be made and host calls run concurrently.
    pub concurrency: bool,
}

/// The settings that a configuration holds.
pub uninterp spec fn config_settings(config: wasmtime::Config) -> EngineSettings;

/// The settings that an engine was made with.
pub uninterp spec fn engine_settings(engine: wasmtime::Engine) -> EngineSettings;

/// The settings of an engine on a backend with nothing else chosen.
pub open spec fn plain_settings(use_pulley: bool) -> EngineSettings {
    EngineSettings {
        pulley: use_pulley,
        component_model: true,
        component_async: false,
        concurrency: true,
    }
}

/// The settings of an engine on a backend whose components support the async ABI.
pub open spec fn async_settings(use_pulley: bool) -> EngineSettings {
    EngineSettings { component_async: true, ..plain_settings(use_pulley) }
}

/// The target triple of the Pulley interpreter on 64-bit little-endian hosts.
pub const PULLEY_TARGET: &'static str = "pulley64";

/// `Config::new`: chooses no target, so that code is made for the host; components
/// are supported, streams, futures and concurrent host calls are on, and the async
/// ABI of components is off.
#[verifier::external_body]
fn new_config() -> (config: wasmtime::Config)
    ensures
        config_settings(config) == plain_settings(false),
{
    wasmtime::Config::new()
}

/// `Config::target`: parses a triple and makes it the target. Pulley's triple is
/// one that it knows.
#[verifier::external_body]
fn set_target(config: &mut wasmtime::Config, target: &str) -> (r: Result<(), wasmtime::Error>)
    requires
        target@ == PULLEY_TARGET@,
    ensures
        r is Ok,
        config_settings(*final(config)) == (EngineSettings {
            pulley: true,
            ..config_settings(*old(config))
        }),
{
    config.target(target).map(|_| ())
}

/// `Config::wasm_component_model`: switches components on or off.
#[verifier::external_body]
fn set_component_model(config: &mut wasmtime::Config, enable: bool)
    ensures
        config_settings(*final(config)) == (EngineSettings {
            component_model: enable,
            ..config_settings(*old(config))
        }),
{
    config.wasm_component_model(enable);
}

/// `Config::wasm_component_model_async`: switches the async ABI of components on
/// or off.
#[verifier::external_body]
fn set_component_async(config: &mut wasmtime::Config, enable: bool)
    ensures
        config_settings(*final(config)) == (EngineSettings {
            component_async: enable,
            ..config_settings(*old(config))
        }),
{
    config.wasm_component_model_async(enable);
}

/// `Config::concurrency_support`: switches streams, futures and concurrent host
/// calls on or off.
#[verifier::external_body]
fn set_concurrency(config: &mut wasmtime::Config, enable: bool)
    ensures
        config_settings(*final(config)) == (EngineSettings {
            concurrency: enable,
            ..config_settings(*old(config))
        }),
{
    config.concurrency_support(enable);
}

/// `Engine::new`: an engine with the settings of a configuration. Whether one
/// can be made depends on the machine.
#[verifier::external_body]
pub(crate) fn new_engine(config: &wasmtime::Config) -> (r: Result<wasmtime::Engine, wasmtime::Error>)
    ensures
        r is Ok ==> engine_settings(r->Ok_0) == config_settings(*config),
{
    wasmtime::Engine::new(config)
}

/// Whether making an engine with these settings gave this outcome.
pub closed spec fn engine_gave(
    settings: EngineSettings,
    made: Result<wasmtime::Engine, wasmtime::Error>,
) -> bool {
    exists|config: wasmtime::Config|
        config_settings(config) == settings && #[trigger] call_ensures(
            new_engine,
            (&config,),
            made,
        )
}

/// Makes Pulley the target where it is chosen, and changes nothing where it is
/// not. Either backend can be configured on every machine.
fn choose_backend(config: &mut wasmtime::Config, use_pulley: bool) -> (r: Result<
    (),
    wasmtime::Error,
>)
    ensures
        r is Ok,
        config_settings(*final(config)) == (EngineSettings {
            pulley: use_pulley || config_settings(*old(config)).pulley,
            ..config_settings(*old(config))
        }),
{
    if use_pulley {
        set_target(config, PULLEY_TARGET)
    } else {
        Ok(())
    }
}

/// The engine, where one was made.
pub fn engine_if_made(made: Result<wasmtime::Engine, wasmtime::Error>) -> (r: Option<
    wasmtime::Engine,
>)
    ensures
        r == (match made {
            Ok(engine) => Some(engine),
            Err(_) => None,
        }),
{
    match made {
        Ok(engine) => Some(engine),
        Err(_) => None,
    }
}

/// Builds an engine on the chosen backend.
pub fn make_engine(use_pulley: bool) -> (r: Result<wasmtime::Engine, wasmtime::Error>)
    ensures
        r is Ok ==> engine_settings(r->Ok_0) == plain_settings(use_pulley),
        engine_gave(plain_settings(use_pulley), r),
{
    let mut config = new_config();
    match choose_backend(&mut config, use_pulley) {
        Ok(_) => {
            let made = new_engine(&config);
            assert(call_ensures(new_engine, (&config,), made));
            made
        },
        Err(e) => Err(e),
    }
}

/// Builds an engine on the chosen backend whose components support the async
/// ABI.
pub fn make_async_engine(use_pulley: bool) -> (r: Result<wasmtime::Engine, wasmtime::Error>)
    ensures
        r is Ok ==> engine_settings(r->Ok_0) == async_settings(use_pulley),
        engine_gave(async_settings(use_pulley), r),
{
    let mut config = new_config();
    set_component_async(&mut config, true);
    match choose_backend(&mut config, use_pulley) {
        Ok(_) => {
            let made = new_engine(&config);
            assert(call_ensures(new_engine, (&config,), made));
            made
        },
        Err(e) => Err(e),
    }
}

/// Builds an engine for the atomic host-call round-trip.
pub fn p3_engine(use_pulley: bool) -> (r: Result<wasmtime::Engine, wasmtime::Error>)
    ensures
        r is Ok ==> engine_settings(r->Ok_0) == plain_settings(use_pulley),
        engine_gave(plain_settings(use_pulley), r),
{
    make_engine(use_pulley)
}

/// Builds an engine for the streaming transports, which make streams and
/// futures; `None` where it cannot be made.
pub fn p3s_engine(use_pulley: bool) -> (r: Option<wasmtime::Engine>)
    ensures
        r is Some ==> engine_settings(r->0) == async_settings(use_pulley),
        exists|made: Result<wasmtime::Engine, wasmtime::Error>| #[trigger]
            engine_gave(async_settings(use_pulley), made) && r == made.ok(),
{
    let mut config = new_config();
    set_component_model(&mut config, true);
    set_component_async(&mut config, true);
    set_concurrency(&mut config, true);
    match choose_backend(&mut config, use_pulley) {
        Ok(_) => {
            let made = new_engine(&config);
            assert(call_ensures(new_engine, (&config,), made));
            assert(engine_gave(async_settings(use_pulley), made));
            engine_if_made(made)
        },
        Err(_) => None,
    }
}

// ── Programs ────────────────────────────────────────────────────────────────

/// A module that exports `add`, the sum of two 32-bit numbers.
pub const ADD_WAT: &'static str = "(module
  (func (export \"add\") (param i32 i32) (result i32)
    local.get 0 local.get 1 i32.add))";

/// A component that exports `add`, the sum of two 32-bit numbers.
pub const ADD_COMPONENT_WAT: &'static str = "(component
  (core module $m
    (func (export \"add\") (param i32 i32) (result i32)
      (i32.add (local.get 0) (local.get 1))))
  (core instance $i (instantiate $m))
  (func (export \"add\") (param \"a\" s32) (param \"b\" s32) (result s32)
    (canon lift (core func $i \"add\"))))";

/// A component that imports `host-double` and exports `run`, which calls it.
pub const HOST_IMPORT_COMPONENT_WAT: &'static str = "(component
  (import \"host-double\" (func $double (param \"x\" u32) (result u32)))
  (core func $double_core (canon lower (func $double)))
  (core module $m
    (import \"host\" \"double\" (func $d (param i32) (result i32)))
    (func (export \"run\") (param i32) (result i32)
      local.get 0 call $d))
  (core instance $i (instantiate $m
    (with \"host\" (instance (export \"double\" (func $double_core))))))
  (func (export \"run\") (param \"x\" u32) (result u32)
    (canon lift (core func $i \"run\"))))";

/// The result of a workspace read without the grant.
pub const WORKSPACE_READ_DENIED: u32 = u32::MAX;

/// A component that imports `read-portfolio-names` and exports `run`, which
/// calls it.
pub const WORKSPACE_READ_COMPONENT_WAT: &'static str = "(component
  (import \"read-portfolio-names\" (func $read (result u32)))
  (core func $read_core (canon lower (func $read)))
  (core module $m
    (import \"host\" \"read\" (func $r (result i32)))
    (func (export \"run\") (result i32)
      call $r))
  (core instance $i (instantiate $m
    (with \"host\" (instance (export \"read\" (func $read_core))))))
  (func (export \"run\") (result u32)
    (canon lift (core func $i \"run\"))))";

/// A module that imports `double` and exports `run`, which calls it.
pub const ASYNC_WAT: &'static str = "(module
  (import \"host\" \"double\" (func $double (param i32) (result i32)))
  (func (export \"run\") (param i32) (result i32)
    local.get 0 call $double))";

/// A component whose exported `run` is lifted with the async ABI and returns
/// twice its argument.
pub const CANON_ASYNC_WAT: &'static str = "(component
  (core func $task_return (canon task.return (result u32)))
  (core module $m
    (import \"\" \"task-return\" (func $task_return (param i32)))
    (func (export \"run\") (param i32) (result i32)
      (call $task_return (i32.mul (local.get 0) (i32.const 2)))
      (i32.const 0))
    (func (export \"cb\") (param i32 i32 i32) (result i32)
      (i32.const 0)))
  (core instance $i (instantiate $m
    (with \"\" (instance (export \"task-return\" (func $task_return))))))
  (func (export \"run\") (param \"x\" u32) (result u32)
    (canon lift (core func $i \"run\") async (callback (core func $i \"cb\")))))";

/// Twice a number, modulo 2^32.
pub open spec fn doubled(x: u32) -> u32 {
    x.wrapping_mul(2)
}

/// The host function that the programs import.
pub fn host_double(x: u32) -> (r: u32)
    ensures
        r == doubled(x),
{
    x.wrapping_mul(2)
}

/// The signed form of the host function.
pub fn host_double_signed(x: i32) -> (r: i32)
    ensures
        r == x.wrapping_mul(2),
{
    x.wrapping_mul(2)
}

/// The gated workspace read: the count with the grant, else the denial.
pub open spec fn gated(granted: bool, count: u32) -> u32 {
    if granted {
        count
    } else {
        WORKSPACE_READ_DENIED
    }
}

/// The host function that the workspace program imports.
pub fn gated_count(granted: bool, count: u32) -> (r: u32)
    ensures
        r == gated(granted, count),
{
    if granted {
        count
    } else {
        WORKSPACE_READ_DENIED
    }
}

/// Whether `TypedFunc::call` of a module's export with these arguments, on an
/// engine with the given settings and with some imports, may return this value.
pub uninterp spec fn module_may_return(
    settings: EngineSettings,
    program: Seq<char>,
    args: Seq<int>,
    value: int,
) -> bool;

/// As [`module_may_return`], of `TypedFunc::call_async`.
pub uninterp spec fn module_may_return_async(
    settings: EngineSettings,
    program: Seq<char>,
    args: Seq<int>,
    value: int,
) -> bool;

/// As [`module_may_return`], of a component's export and its `TypedFunc::call`.
pub uninterp spec fn component_may_return(
    settings: EngineSettings,
    program: Seq<char>,
    args: Seq<int>,
    value: int,
) -> bool;

/// As [`component_may_return`], of `TypedFunc::call_async`.
pub uninterp spec fn component_may_return_async(
    settings: EngineSettings,
    program: Seq<char>,
    args: Seq<int>,
    value: int,
) -> bool;

/// `Module::new`, `Instance::new` and `TypedFunc::call` on [`ADD_WAT`]: where the
/// program could be compiled and run, the result is one that it may return on that
/// engine, and is WebAssembly's `i32.add`, addition modulo 2^32.
#[verifier::external_body]
pub(crate) fn call_core_add(engine: &wasmtime::Engine, wat: &str, a: i32, b: i32) -> (r: Result<
    i32,
    wasmtime::Error,
>)
    requires
        wat@ == ADD_WAT@,
    ensures
        r is Ok ==> r->Ok_0 == a.wrapping_add(b),
        r is Ok ==> module_may_return(
            engine_settings(*engine),
            wat@,
            seq![a as int, b as int],
            r->Ok_0 as int,
        ),
{
    let module = wasmtime::Module::new(engine, wat)?;
    let mut store = wasmtime::Store::new(engine, ());
    let instance = wasmtime::Instance::new(&mut store, &module, &[])?;
    let add = instance.get_typed_func::<(i32, i32), i32>(&mut store, "add")?;
    add.call(&mut store, (a, b))
}

/// Whether running the program of [`add_on`] on an engine, where it was made, gave
/// this outcome; without an engine the outcome is its error.
pub closed spec fn add_gave(
    made: Result<wasmtime::Engine, wasmtime::Error>,
    a: i32,
    b: i32,
    r: Result<i32, wasmtime::Error>,
) -> bool {
    match made {
        Ok(engine) => call_ensures(call_core_add, (&engine, ADD_WAT, a, b), r),
        Err(e) => r == Err::<i32, wasmtime::Error>(e),
    }
}

/// Compiles and runs `add(a, b)` on an engine.
/// Where the engine could not be made, its error is returned.
pub fn add_on(
    made: Result<wasmtime::Engine, wasmtime::Error>,
    a: i32,
    b: i32,
) -> (r: Result<i32, wasmtime::Error>)
    ensures
        made matches Err(e) ==> r == Err::<i32, wasmtime::Error>(e),
        r is Ok ==> r->Ok_0 == a.wrapping_add(b),
        r is Ok ==> module_may_return(
            engine_settings(made->Ok_0),
            ADD_WAT@,
            seq![a as int, b as int],
            r->Ok_0 as int,
        ),
        add_gave(made, a, b, r),
{
    match made {
        Ok(engine) => call_core_add(&engine, ADD_WAT, a, b),
        Err(e) => Err(e),
    }
}

/// Compiles and runs `add(a, b)` on the chosen backend.
pub fn run_add(use_pulley: bool, a: i32, b: i32) -> (r: Result<i32, wasmtime::Error>)
    ensures
        r is Ok ==> r->Ok_0 == a.wrapping_add(b),
        r is Ok ==> module_may_return(
            plain_settings(use_pulley),
            ADD_WAT@,
            seq![a as int, b as int],
            r->Ok_0 as int,
        ),
        exists|made: Result<wasmtime::Engine, wasmtime::Error>| #[trigger]
            engine_gave(plain_settings(use_pulley), made) && add_gave(made, a, b, r),
{
    add_on(make_engine(use_pulley), a, b)
}

/// `Component::new`, `Linker::instantiate` and `TypedFunc::call` on
/// [`ADD_COMPONENT_WAT`]: where the program could be compiled and run, the result
/// is one that it may return on that engine, and is WebAssembly's `i32.add`,
/// addition modulo 2^32.
#[verifier::external_body]
pub(crate) fn call_component_add(engine: &wasmtime::Engine, wat: &str, a: i32, b: i32) -> (r: Result<
    i32,
    wasmtime::Error,
>)
    requires
        wat@ == ADD_COMPONENT_WAT@,
    ensures
        r is Ok ==> r->Ok_0 == a.wrapping_add(b),
        r is Ok ==> component_may_return(
            engine_settings(*engine),
            wat@,
            seq![a as int, b as int],
            r->Ok_0 as int,
        ),
{
    let component = wasmtime::component::Component::new(engine, wat)?;
    let linker = wasmtime::component::Linker::new(engine);
    let mut store = wasmtime::Store::new(engine, ());
    let instance = linker.instantiate(&mut store, &component)?;
    let add = instance.get_typed_func::<(i32, i32), (i32,)>(&mut store, "add")?;
    add.call(&mut store, (a, b)).map(|r| r.0)
}

/// Whether running the program of [`component_add_on`] on an engine, where it was made, gave
/// this outcome; without an engine the outcome is its error.
pub closed spec fn component_add_gave(
    made: Result<wasmtime::Engine, wasmtime::Error>,
    a: i32,
    b: i32,
    r: Result<i32, wasmtime::Error>,
) -> bool {
    match made {
        Ok(engine) => call_ensures(call_component_add, (&engine, ADD_COMPONENT_WAT, a, b), r),
        Err(e) => r == Err::<i32, wasmtime::Error>(e),
    }
}

/// Runs the `add` of a component on an engine.
/// Where the engine could not be made, its error is returned.
pub fn component_add_on(
    made: Result<wasmtime::Engine, wasmtime::Error>,
    a: i32,
    b: i32,
) -> (r: Result<i32, wasmtime::Error>)
    ensures
        made matches Err(e) ==> r == Err::<i32, wasmtime::Error>(e),
        r is Ok ==> r->Ok_0 == a.wrapping_add(b),
        r is Ok ==> component_may_return(
            engine_settings(made->Ok_0),
            ADD_COMPONENT_WAT@,
            seq![a as int, b as int],
            r->Ok_0 as int,
        ),
        component_add_gave(made, a, b, r),
{
    match made {
        Ok(engine) => call_component_add(&engine, ADD_COMPONENT_WAT, a, b),
        Err(e) => Err(e),
    }
}

/// Runs the `add` of a component on the chosen backend.
pub fn run_component_add(use_pulley: bool, a: i32, b: i32) -> (r: Result<i32, wasmtime::Error>)
    ensures
        r is Ok ==> r->Ok_0 == a.wrapping_add(b),
        r is Ok ==> component_may_return(
            plain_settings(use_pulley),
            ADD_COMPONENT_WAT@,
            seq![a as int, b as int],
            r->Ok_0 as int,
        ),
        exists|made: Result<wasmtime::Engine, wasmtime::Error>| #[trigger]
            engine_gave(plain_settings(use_pulley), made) && component_add_gave(made, a, b, r),
{
    component_add_on(make_engine(use_pulley), a, b)
}

/// `LinkerInstance::func_wrap`, `Linker::instantiate` and `TypedFunc::call` on
/// [`HOST_IMPORT_COMPONENT_WAT`] with [`host_double`] as its import: where the
/// program could be compiled and run, the result is one that it may return on that
/// engine, and is that of the import.
#[verifier::external_body]
pub(crate) fn call_host_import(engine: &wasmtime::Engine, wat: &str, x: u32) -> (r: Result<
    u32,
    wasmtime::Error,
>)
    requires
        wat@ == HOST_IMPORT_COMPONENT_WAT@,
    ensures
        r is Ok ==> r->Ok_0 == doubled(x),
        r is Ok ==> component_may_return(
            engine_settings(*engine),
            wat@,
            seq![x as int],
            r->Ok_0 as int,
        ),
{
    let component = wasmtime::component::Component::new(engine, wat)?;
    let mut linker = wasmtime::component::Linker::<()>::new(engine);
    linker.root().func_wrap("host-double", |_, (v,): (u32,)| Ok((host_double(v),)))?;
    let mut store = wasmtime::Store::new(engine, ());
    let instance = linker.instantiate(&mut store, &component)?;
    let run = instance.get_typed_func::<(u32,), (u32,)>(&mut store, "run")?;
    run.call(&mut store, (x,)).map(|r| r.0)
}

/// Whether running the program of [`host_import_on`] on an engine, where it was made, gave
/// this outcome; without an engine the outcome is its error.
pub closed spec fn host_import_gave(
    made: Result<wasmtime::Engine, wasmtime::Error>,
    x: u32,
    r: Result<u32, wasmtime::Error>,
) -> bool {
    match made {
        Ok(engine) => call_ensures(call_host_import, (&engine, HOST_IMPORT_COMPONENT_WAT, x), r),
        Err(e) => r == Err::<u32, wasmtime::Error>(e),
    }
}

/// Runs a component that calls back into the host, on an engine.
/// Where the engine could not be made, its error is returned.
pub fn host_import_on(
    made: Result<wasmtime::Engine, wasmtime::Error>,
    x: u32,
) -> (r: Result<u32, wasmtime::Error>)
    ensures
        made matches Err(e) ==> r == Err::<u32, wasmtime::Error>(e),
        r is Ok ==> r->Ok_0 == doubled(x),
        r is Ok ==> component_may_return(
            engine_settings(made->Ok_0),
            HOST_IMPORT_COMPONENT_WAT@,
            seq![x as int],
            r->Ok_0 as int,
        ),
        host_import_gave(made, x, r),
{
    match made {
        Ok(engine) => call_host_import(&engine, HOST_IMPORT_COMPONENT_WAT, x),
        Err(e) => Err(e),
    }
}

/// Runs a component that calls back into the host, on the chosen backend.
pub fn run_component_host_import(use_pulley: bool, x: u32) -> (r: Result<u32, wasmtime::Error>)
    ensures
        r is Ok ==> r->Ok_0 == doubled(x),
        r is Ok ==> component_may_return(
            plain_settings(use_pulley),
            HOST_IMPORT_COMPONENT_WAT@,
            seq![x as int],
            r->Ok_0 as int,
        ),
        exists|made: Result<wasmtime::Engine, wasmtime::Error>| #[trigger]
            engine_gave(plain_settings(use_pulley), made) && host_import_gave(made, x, r),
{
    host_import_on(make_engine(use_pulley), x)
}

/// `LinkerInstance::func_wrap`, `Linker::instantiate` and `TypedFunc::call` on
/// [`WORKSPACE_READ_COMPONENT_WAT`] with [`gated_count`] as its import: where the
/// program could be compiled and run, the result is one that it may return on that
/// engine, and is that of the import.
#[verifier::external_body]
pub(crate) fn call_workspace_read(engine: &wasmtime::Engine, wat: &str, granted: bool, count: u32) -> (r:
    Result<u32, wasmtime::Error>)
    requires
        wat@ == WORKSPACE_READ_COMPONENT_WAT@,
    ensures
        r is Ok ==> r->Ok_0 == gated(granted, count),
        r is Ok ==> component_may_return(
            engine_settings(*engine),
            wat@,
            seq![],
            r->Ok_0 as int,
        ),
{
    let component = wasmtime::component::Component::new(engine, wat)?;
    let mut linker = wasmtime::component::Linker::<()>::new(engine);
    linker.root().func_wrap(
        "read-portfolio-names",
        move |_, _: ()| Ok((gated_count(granted, count),)),
    )?;
    let mut store = wasmtime::Store::new(engine, ());
    let instance = linker.instantiate(&mut store, &component)?;
    let run = instance.get_typed_func::<(), (u32,)>(&mut store, "run")?;
    run.call(&mut store, ()).map(|r| r.0)
}

/// Whether running the program of [`workspace_read_on`] on an engine, where it was made, gave
/// this outcome; without an engine the outcome is its error.
pub closed spec fn workspace_read_gave(
    made: Result<wasmtime::Engine, wasmtime::Error>,
    granted: bool,
    count: u32,
    r: Result<u32, wasmtime::Error>,
) -> bool {
    match made {
        Ok(engine) => call_ensures(call_workspace_read, (&engine, WORKSPACE_READ_COMPONENT_WAT, granted, count), r),
        Err(e) => r == Err::<u32, wasmtime::Error>(e),
    }
}

/// Runs the gated workspace read on an engine.
/// Where the engine could not be made, its error is returned.
pub fn workspace_read_on(
    made: Result<wasmtime::Engine, wasmtime::Error>,
    granted: bool,
    count: u32,
) -> (r: Result<u32, wasmtime::Error>)
    ensures
        made matches Err(e) ==> r == Err::<u32, wasmtime::Error>(e),
        r is Ok ==> r->Ok_0 == gated(granted, count),
        r is Ok ==> component_may_return(
            engine_settings(made->Ok_0),
            WORKSPACE_READ_COMPONENT_WAT@,
            seq![],
            r->Ok_0 as int,
        ),
        workspace_read_gave(made, granted, count, r),
{
    match made {
        Ok(engine) => call_workspace_read(
            &engine,
            WORKSPACE_READ_COMPONENT_WAT,
            granted,
            count,
        ),
        Err(e) => Err(e),
    }
}

/// Runs the gated workspace read on the chosen backend.
pub fn run_gated_workspace_read(use_pulley: bool, granted: bool, count: u32) -> (r: Result<
    u32,
    wasmtime::Error,
>)
    ensures
        r is Ok ==> r->Ok_0 == gated(granted, count),
        r is Ok ==> component_may_return(
            plain_settings(use_pulley),
            WORKSPACE_READ_COMPONENT_WAT@,
            seq![],
            r->Ok_0 as int,
        ),
        exists|made: Result<wasmtime::Engine, wasmtime::Error>| #[trigger]
            engine_gave(plain_settings(use_pulley), made) && workspace_read_gave(made, granted, count, r),
{
    workspace_read_on(make_engine(use_pulley), granted, count)
}

/// `Linker::func_wrap_async`, `Linker::instantiate_async` and
/// `TypedFunc::call_async` on [`ASYNC_WAT`] with [`host_double_signed`] as its
/// async import, driven to its end by `pollster::block_on`: where the program
/// could be compiled and run, the result is one that it may return on that engine,
/// and is that of the import.
#[verifier::external_body]
pub(crate) fn call_async_double(engine: &wasmtime::Engine, wat: &str, x: i32) -> (r: Result<
    i32,
    wasmtime::Error,
>)
    requires
        wat@ == ASYNC_WAT@,
    ensures
        r is Ok ==> r->Ok_0 == x.wrapping_mul(2),
        r is Ok ==> module_may_return_async(
            engine_settings(*engine),
            wat@,
            seq![x as int],
            r->Ok_0 as int,
        ),
{
    let module = wasmtime::Module::new(engine, wat)?;
    let mut linker = wasmtime::Linker::<()>::new(engine);
    linker.func_wrap_async("host", "double", |_, (v,): (i32,)| {
        Box::new(std::future::ready(host_double_signed(v)))
    })?;
    let mut store = wasmtime::Store::new(engine, ());
    let instance = pollster::block_on(linker.instantiate_async(&mut store, &module))?;
    let run = instance.get_typed_func::<i32, i32>(&mut store, "run")?;
    pollster::block_on(run.call_async(&mut store, x))
}

/// Whether running the program of [`async_double_on`] on an engine, where it was made, gave
/// this outcome; without an engine the outcome is its error.
pub closed spec fn async_double_gave(
    made: Result<wasmtime::Engine, wasmtime::Error>,
    x: i32,
    r: Result<i32, wasmtime::Error>,
) -> bool {
    match made {
        Ok(engine) => call_ensures(call_async_double, (&engine, ASYNC_WAT, x), r),
        Err(e) => r == Err::<i32, wasmtime::Error>(e),
    }
}

/// Runs a module that calls an async host function, on an engine.
/// Where the engine could not be made, its error is returned.
pub fn async_double_on(
    made: Result<wasmtime::Engine, wasmtime::Error>,
    x: i32,
) -> (r: Result<i32, wasmtime::Error>)
    ensures
        made matches Err(e) ==> r == Err::<i32, wasmtime::Error>(e),
        r is Ok ==> r->Ok_0 == x.wrapping_mul(2),
        r is Ok ==> module_may_return_async(
            engine_settings(made->Ok_0),
            ASYNC_WAT@,
            seq![x as int],
            r->Ok_0 as int,
        ),
        async_double_gave(made, x, r),
{
    match made {
        Ok(engine) => call_async_double(&engine, ASYNC_WAT, x),
        Err(e) => Err(e),
    }
}

/// Runs a module that calls an async host function, on the chosen backend.
pub fn run_async_double(use_pulley: bool, x: i32) -> (r: Result<i32, wasmtime::Error>)
    ensures
        r is Ok ==> r->Ok_0 == x.wrapping_mul(2),
        r is Ok ==> module_may_return_async(
            plain_settings(use_pulley),
            ASYNC_WAT@,
            seq![x as int],
            r->Ok_0 as int,
        ),
        exists|made: Result<wasmtime::Engine, wasmtime::Error>| #[trigger]
            engine_gave(plain_settings(use_pulley), made) && async_double_gave(made, x, r),
{
    async_double_on(make_engine(use_pulley), x)
}

/// `LinkerInstance::func_wrap_async`, `Linker::instantiate_async` and
/// `TypedFunc::call_async` on [`HOST_IMPORT_COMPONENT_WAT`] with [`host_double`]
/// as its async import, driven to its end by `pollster::block_on`: where the
/// program could be compiled and run, the result is one that it may return on that
/// engine, and is that of the import.
#[verifier::external_body]
pub(crate) fn call_component_async_double(engine: &wasmtime::Engine, wat: &str, x: u32) -> (r: Result<
    u32,
    wasmtime::Error,
>)
    requires
        wat@ == HOST_IMPORT_COMPONENT_WAT@,
    ensures
        r is Ok ==> r->Ok_0 == doubled(x),
        r is Ok ==> component_may_return_async(
            engine_settings(*engine),
            wat@,
            seq![x as int],
            r->Ok_0 as int,
        ),
{
    let component = wasmtime::component::Component::new(engine, wat)?;
    let mut linker = wasmtime::component::Linker::<()>::new(engine);
    linker.root().func_wrap_async("host-double", |_, (v,): (u32,)| {
        Box::new(std::future::ready(Ok((host_double(v),))))
    })?;
    let mut store = wasmtime::Store::new(engine, ());
    let instance = pollster::block_on(linker.instantiate_async(&mut store, &component))?;
    let run = instance.get_typed_func::<(u32,), (u32,)>(&mut store, "run")?;
    pollster::block_on(run.call_async(&mut store, (x,))).map(|r| r.0)
}

/// Whether running the program of [`component_async_double_on`] on an engine, where it was made, gave
/// this outcome; without an engine the outcome is its error.
pub closed spec fn component_async_double_gave(
    made: Result<wasmtime::Engine, wasmtime::Error>,
    x: u32,
    r: Result<u32, wasmtime::Error>,
) -> bool {
    match made {
        Ok(engine) => call_ensures(call_component_async_double, (&engine, HOST_IMPORT_COMPONENT_WAT, x), r),
        Err(e) => r == Err::<u32, wasmtime::Error>(e),
    }
}

/// Runs a component that calls an async host function, on an engine.
/// Where the engine could not be made, its error is returned.
pub fn component_async_double_on(
    made: Result<wasmtime::Engine, wasmtime::Error>,
    x: u32,
) -> (r: Result<u32, wasmtime::Error>)
    ensures
        made matches Err(e) ==> r == Err::<u32, wasmtime::Error>(e),
        r is Ok ==> r->Ok_0 == doubled(x),
        r is Ok ==> component_may_return_async(
            engine_settings(made->Ok_0),
            HOST_IMPORT_COMPONENT_WAT@,
            seq![x as int],
            r->Ok_0 as int,
        ),
        component_async_double_gave(made, x, r),
{
    match made {
        Ok(engine) => call_component_async_double(&engine, HOST_IMPORT_COMPONENT_WAT, x),
        Err(e) => Err(e),
    }
}

/// Runs a component that calls an async host function, on the chosen backend.
pub fn run_component_async_double(use_pulley: bool, x: u32) -> (r: Result<u32, wasmtime::Error>)
    ensures
        r is Ok ==> r->Ok_0 == doubled(x),
        r is Ok ==> component_may_return_async(
            async_settings(use_pulley),
            HOST_IMPORT_COMPONENT_WAT@,
            seq![x as int],
            r->Ok_0 as int,
        ),
        exists|made: Result<wasmtime::Engine, wasmtime::Error>| #[trigger]
            engine_gave(async_settings(use_pulley), made) && component_async_double_gave(made, x, r),
{
    component_async_double_on(make_async_engine(use_pulley), x)
}

/// `Linker::instantiate_async` and `TypedFunc::call_async` on
/// [`CANON_ASYNC_WAT`], driven to its end by `pollster::block_on`: where the
/// program could be compiled and run, the result is one that it may return on that
/// engine, and is WebAssembly's `i32.mul` by two, multiplication modulo 2^32.
#[verifier::external_body]
pub(crate) fn call_canonical_async_double(engine: &wasmtime::Engine, wat: &str, x: u32) -> (r: Result<
    u32,
    wasmtime::Error,
>)
    requires
        wat@ == CANON_ASYNC_WAT@,
    ensures
        r is Ok ==> r->Ok_0 == doubled(x),
        r is Ok ==> component_may_return_async(
            engine_settings(*engine),
            wat@,
            seq![x as int],
            r->Ok_0 as int,
        ),
{
    let component = wasmtime::component::Component::new(engine, wat)?;
    let linker = wasmtime::component::Linker::<()>::new(engine);
    let mut store = wasmtime::Store::new(engine, ());
    let instance = pollster::block_on(linker.instantiate_async(&mut store, &component))?;
    let run = instance.get_typed_func::<(u32,), (u32,)>(&mut store, "run")?;
    pollster::block_on(run.call_async(&mut store, (x,))).map(|r| r.0)
}

/// Whether running the program of [`canonical_async_double_on`] on an engine, where it was made, gave
/// this outcome; without an engine the outcome is its error.
pub closed spec fn canonical_async_double_gave(
    made: Result<wasmtime::Engine, wasmtime::Error>,
    x: u32,
    r: Result<u32, wasmtime::Error>,
) -> bool {
    match made {
        Ok(engine) => call_ensures(call_canonical_async_double, (&engine, CANON_ASYNC_WAT, x), r),
        Err(e) => r == Err::<u32, wasmtime::Error>(e),
    }
}

/// Runs a component whose export is lifted with the async ABI, on an engine.
/// Where the engine could not be made, its error is returned.
pub fn canonical_async_double_on(
    made: Result<wasmtime::Engine, wasmtime::Error>,
    x: u32,
) -> (r: Result<u32, wasmtime::Error>)
    ensures
        made matches Err(e) ==> r == Err::<u32, wasmtime::Error>(e),
        r is Ok ==> r->Ok_0 == doubled(x),
        r is Ok ==> component_may_return_async(
            engine_settings(made->Ok_0),
            CANON_ASYNC_WAT@,
            seq![x as int],
            r->Ok_0 as int,
        ),
        canonical_async_double_gave(made, x, r),
{
    match made {
        Ok(engine) => call_canonical_async_double(&engine, CANON_ASYNC_WAT, x),
        Err(e) => Err(e),
    }
}

/// Runs a component whose export is lifted with the async ABI, on the chosen
/// backend.
pub fn run_canonical_async_double(use_pulley: bool, x: u32) -> (r: Result<u32, wasmtime::Error>)
    ensures
        r is Ok ==> r->Ok_0 == doubled(x),
        r is Ok ==> component_may_return_async(
            async_settings(use_pulley),
            CANON_ASYNC_WAT@,
            seq![x as int],
            r->Ok_0 as int,
        ),
        exists|made: Result<wasmtime::Engine, wasmtime::Error>| #[trigger]
            engine_gave(async_settings(use_pulley), made) && canonical_async_double_gave(made, x, r),
{
    canonical_async_double_on(make_async_engine(use_pulley), x)
}

// ── The flat results of the C interface ─────────────────────────────────────

/// Whether a flag of the C interface is set.
pub open spec fn is_set(flag: i32) -> bool {
    flag != 0
}

/// A signed result as the C interface returns it: the value, or the smallest
/// 64-bit number for an error.
pub fn signed_result(r: Result<i32, wasmtime::Error>) -> (n: i64)
    ensures
        n == (match r {
            Ok(v) => v as i64,
            Err(_) => i64::MIN,
        }),
{
    match r {
        Ok(v) => v as i64,
        Err(_) => i64::MIN,
    }
}

/// An unsigned result as the C interface returns it: the value, or the smallest
/// 64-bit number for an error.
pub fn unsigned_result(r: Result<u32, wasmtime::Error>) -> (n: i64)
    ensures
        n == (match r {
            Ok(v) => v as i64,
            Err(_) => i64::MIN,
        }),
{
    match r {
        Ok(v) => v as i64,
        Err(_) => i64::MIN,
    }
}

/// The bits of a signed argument as an unsigned one.
pub open spec fn bits(x: i32) -> u32 {
    if x >= 0 {
        x as u32
    } else {
        (x + 0x1_0000_0000) as u32
    }
}

/// The bits of a signed argument as an unsigned one.
fn to_bits(x: i32) -> (r: u32)
    ensures
        r == bits(x),
{
    if x >= 0 {
        x as u32
    } else {
        ((x as i64) + 0x1_0000_0000) as u32
    }
}

/// A double that came back modulo 2^32, as the C interface returns it: twice `x`
/// exactly, where `r` is that modulo 2^32; the smallest 64-bit number for an
/// error.
pub fn doubled_result(r: Result<u32, wasmtime::Error>, x: i32) -> (n: i64)
    ensures
        n == (match r {
            Ok(v) => if x < 0 {
                v - 0x1_0000_0000
            } else {
                v as int
            },
            Err(_) => i64::MIN as int,
        }),
        r matches Ok(v) && v == doubled(bits(x)) ==> n == 2 * x,
{
    match r {
        Ok(v) => if x < 0 {
            (v as i64) - 0x1_0000_0000
        } else {
            v as i64
        },
        Err(_) => i64::MIN,
    }
}

/// The outcome of the self-test: 1 where an engine was made, else 0.
pub fn self_test_result(made: &Result<wasmtime::Engine, wasmtime::Error>) -> (ok: i32)
    ensures
        ok == (if made is Ok {
            1i32
        } else {
            0i32
        }),
{
    match made {
        Ok(_) => 1,
        Err(_) => 0,
    }
}

/// Whether an engine can be made: 1 where one was made with nothing chosen, else
/// 0.
pub fn hwr_self_test() -> (ok: i32)
    ensures
        ok == 0 || ok == 1,
        ok == 1 ==> exists|engine: wasmtime::Engine| #[trigger]
            engine_settings(engine) == plain_settings(false),
        exists|made: Result<wasmtime::Engine, wasmtime::Error>| #[trigger]
            engine_gave(plain_settings(false), made) && ok == (if made is Ok {
                1i32
            } else {
                0i32
            }),
{
    self_test_result(&make_engine(false))
}

/// Runs `add(a, b)` of a module; a non-zero `use_pulley` chooses the
/// interpreter.
pub fn hwr_eval_add(use_pulley: i32, a: i32, b: i32) -> (n: i64)
    ensures
        n == i64::MIN || n == a.wrapping_add(b),
        n != i64::MIN ==> module_may_return(
            plain_settings(use_pulley != 0),
            ADD_WAT@,
            seq![a as int, b as int],
            a.wrapping_add(b) as int,
        ),
        exists|made: Result<wasmtime::Engine, wasmtime::Error>, r: Result<i32, wasmtime::Error>|
            #[trigger] engine_gave(plain_settings(is_set(use_pulley)), made) && #[trigger] add_gave(
                made,
                a,
                b,
                r,
            ) && n == (match r {
                Ok(v) => v as i64,
                Err(_) => i64::MIN,
            }),
{
    assert(is_set(use_pulley) == (use_pulley != 0));
    signed_result(run_add(use_pulley != 0, a, b))
}

/// Runs `add(a, b)` of a component.
pub fn hwr_eval_component_add(use_pulley: i32, a: i32, b: i32) -> (n: i64)
    ensures
        n == i64::MIN || n == a.wrapping_add(b),
        n != i64::MIN ==> component_may_return(
            plain_settings(use_pulley != 0),
            ADD_COMPONENT_WAT@,
            seq![a as int, b as int],
            a.wrapping_add(b) as int,
        ),
        exists|made: Result<wasmtime::Engine, wasmtime::Error>, r: Result<i32, wasmtime::Error>|
            #[trigger] engine_gave(plain_settings(is_set(use_pulley)), made) && #[trigger] component_add_gave(
                made,
                a,
                b,
                r,
            ) && n == (match r {
                Ok(v) => v as i64,
                Err(_) => i64::MIN,
            }),
{
    assert(is_set(use_pulley) == (use_pulley != 0));
    signed_result(run_component_add(use_pulley != 0, a, b))
}

/// Runs a component that calls back into the host: twice `x`.
pub fn hwr_eval_host_import(use_pulley: i32, x: i32) -> (n: i64)
    ensures
        n == i64::MIN || n == 2 * x,
        n != i64::MIN ==> component_may_return(
            plain_settings(use_pulley != 0),
            HOST_IMPORT_COMPONENT_WAT@,
            seq![bits(x) as int],
            doubled(bits(x)) as int,
        ),
        exists|made: Result<wasmtime::Engine, wasmtime::Error>, r: Result<u32, wasmtime::Error>|
            #[trigger] engine_gave(plain_settings(is_set(use_pulley)), made) && #[trigger] host_import_gave(
                made,
                bits(x),
                r,
            ) && n == (match r {
                Ok(_) => (2 * x) as i64,
                Err(_) => i64::MIN,
            }),
{
    assert(is_set(use_pulley) == (use_pulley != 0));
    doubled_result(run_component_host_import(use_pulley != 0, to_bits(x)), x)
}

/// Runs a module that calls an async host function: twice `x`.
pub fn hwr_run_async_double(use_pulley: i32, x: i32) -> (n: i64)
    ensures
        n == i64::MIN || n == 2 * x,
        n != i64::MIN ==> module_may_return_async(
            plain_settings(use_pulley != 0),
            ASYNC_WAT@,
            seq![x as int],
            x.wrapping_mul(2) as int,
        ),
        exists|made: Result<wasmtime::Engine, wasmtime::Error>, r: Result<i32, wasmtime::Error>|
            #[trigger] engine_gave(plain_settings(is_set(use_pulley)), made) && #[trigger] async_double_gave(
                made,
                x,
                r,
            ) && n == (match r {
                Ok(_) => (2 * x) as i64,
                Err(_) => i64::MIN,
            }),
{
    assert(is_set(use_pulley) == (use_pulley != 0));
    match run_async_double(use_pulley != 0, x) {
        Ok(v) => {
            assert(bits(v) == doubled(bits(x)));
            doubled_result(Ok(to_bits(v)), x)
        },
        Err(e) => doubled_result(Err(e), x),
    }
}

/// Runs a component that calls an async host function: twice `x`.
pub fn hwr_run_component_async_double(use_pulley: i32, x: i32) -> (n: i64)
    ensures
        n == i64::MIN || n == 2 * x,
        n != i64::MIN ==> component_may_return_async(
            async_settings(use_pulley != 0),
            HOST_IMPORT_COMPONENT_WAT@,
            seq![bits(x) as int],
            doubled(bits(x)) as int,
        ),
        exists|made: Result<wasmtime::Engine, wasmtime::Error>, r: Result<u32, wasmtime::Error>|
            #[trigger] engine_gave(async_settings(is_set(use_pulley)), made) && #[trigger] component_async_double_gave(
                made,
                bits(x),
                r,
            ) && n == (match r {
                Ok(_) => (2 * x) as i64,
                Err(_) => i64::MIN,
            }),
{
    assert(is_set(use_pulley) == (use_pulley != 0));
    doubled_result(run_component_async_double(use_pulley != 0, to_bits(x)), x)
}

/// Runs a component whose export is lifted with the async ABI: twice `x`.
pub fn hwr_run_canonical_async_double(use_pulley: i32, x: i32) -> (n: i64)
    ensures
        n == i64::MIN || n == 2 * x,
        n != i64::MIN ==> component_may_return_async(
            async_settings(use_pulley != 0),
            CANON_ASYNC_WAT@,
            seq![bits(x) as int],
            doubled(bits(x)) as int,
        ),
        exists|made: Result<wasmtime::Engine, wasmtime::Error>, r: Result<u32, wasmtime::Error>|
            #[trigger] engine_gave(async_settings(is_set(use_pulley)), made) && #[trigger] canonical_async_double_gave(
                made,
                bits(x),
                r,
            ) && n == (match r {
                Ok(_) => (2 * x) as i64,
                Err(_) => i64::MIN,
            }),
{
    assert(is_set(use_pulley) == (use_pulley != 0));
    doubled_result(run_canonical_async_double(use_pulley != 0, to_bits(x)), x)
}

/// Runs the gated workspace read: the count with the grant, else the denial.
pub fn hwr_read_portfolio_count(use_pulley: i32, granted: i32, count: u32) -> (n: i64)
    ensures
        n == i64::MIN || n == gated(granted != 0, count),
        n != i64::MIN ==> component_may_return(
            plain_settings(use_pulley != 0),
            WORKSPACE_READ_COMPONENT_WAT@,
            seq![],
            gated(granted != 0, count) as int,
        ),
        exists|made: Result<wasmtime::Engine, wasmtime::Error>, r: Result<u32, wasmtime::Error>|
            #[trigger] engine_gave(plain_settings(is_set(use_pulley)), made) && #[trigger] workspace_read_gave(
                made,
                is_set(granted),
                count,
                r,
            ) && n == (match r {
                Ok(v) => v as i64,
                Err(_) => i64::MIN,
            }),
{
    assert(is_set(use_pulley) == (use_pulley != 0));
    assert(is_set(granted) == (granted != 0));
    unsigned_result(run_gated_workspace_read(use_pulley != 0, granted != 0, count))
}

// ── Laws ────────────────────────────────────────────────────────────────────

/// An engine is missing only where `wasmtime` could not make it: each function
/// that makes one hands on what came of a configuration with the backend that was
/// asked for, with components, streams and futures on, and with the async ABI on
/// for the streaming transports and the async programs alone.
pub(crate) proof fn law_engines_fail_only_where_they_cannot_be_made(
    use_pulley: bool,
    plain: Result<wasmtime::Engine, wasmtime::Error>,
    atomic: Result<wasmtime::Engine, wasmtime::Error>,
    concurrent: Result<wasmtime::Engine, wasmtime::Error>,
    streaming: Option<wasmtime::Engine>,
)
    requires
        call_ensures(make_engine, (use_pulley,), plain),
        call_ensures(p3_engine, (use_pulley,), atomic),
        call_ensures(make_async_engine, (use_pulley,), concurrent),
        call_ensures(p3s_engine, (use_pulley,), streaming),
    ensures
        exists|config: wasmtime::Config| #[trigger]
            call_ensures(new_engine, (&config,), plain) && config_settings(config) == (
            EngineSettings {
                pulley: use_pulley,
                component_model: true,
                component_async: false,
                concurrency: true,
            }),
        exists|config: wasmtime::Config| #[trigger]
            call_ensures(new_engine, (&config,), atomic) && config_settings(config) == (
            EngineSettings {
                pulley: use_pulley,
                component_model: true,
                component_async: false,
                concurrency: true,
            }),
        exists|config: wasmtime::Config| #[trigger]
            call_ensures(new_engine, (&config,), concurrent) && config_settings(config) == (
            EngineSettings {
                pulley: use_pulley,
                component_model: true,
                component_async: true,
                concurrency: true,
            }),
        exists|config: wasmtime::Config, made: Result<wasmtime::Engine, wasmtime::Error>|
            #[trigger]
            call_ensures(new_engine, (&config,), made) && config_settings(config) == (
            EngineSettings {
                pulley: use_pulley,
                component_model: true,
                component_async: true,
                concurrency: true,
            }) && (match made {
                Ok(engine) => streaming == Some(engine),
                Err(_) => streaming is None,
            }),
{
    let made = choose|made: Result<wasmtime::Engine, wasmtime::Error>| #[trigger]
        engine_gave(async_settings(use_pulley), made) && streaming == made.ok();
    let config = choose|config: wasmtime::Config|
        config_settings(config) == async_settings(use_pulley) && #[trigger] call_ensures(
            new_engine,
            (&config,),
            made,
        );
    assert(call_ensures(new_engine, (&config,), made));
}

/// A run of the program behind [`run_add`] fails only where the engine or the
/// program does, and its outcome comes from the backend that was asked for.
pub(crate) proof fn law_add_comes_from_its_run(
    use_pulley: bool,
    a: i32,
    b: i32,
    r: Result<i32, wasmtime::Error>,
)
    requires
        call_ensures(run_add, (use_pulley, a, b), r),
    ensures
        exists|config: wasmtime::Config, made: Result<wasmtime::Engine, wasmtime::Error>|
            #[trigger]
            call_ensures(new_engine, (&config,), made) && config_settings(config) == (
            EngineSettings {
                pulley: use_pulley,
                component_model: true,
                component_async: false,
                concurrency: true,
            }) && (match made {
                Ok(engine) => call_ensures(call_core_add, (&engine, ADD_WAT, a, b), r),
                Err(e) => r == Err::<i32, wasmtime::Error>(e),
            }),
{
    let made = choose|made: Result<wasmtime::Engine, wasmtime::Error>| #[trigger]
        engine_gave(plain_settings(use_pulley), made) && add_gave(made, a, b, r);
    let config = choose|config: wasmtime::Config|
        config_settings(config) == plain_settings(use_pulley) && #[trigger] call_ensures(
            new_engine,
            (&config,),
            made,
        );
    assert(call_ensures(new_engine, (&config,), made));
}

/// A run of the program behind [`run_component_add`] fails only where the engine or the
/// program does, and its outcome comes from the backend that was asked for.
pub(crate) proof fn law_component_add_comes_from_its_run(
    use_pulley: bool,
    a: i32,
    b: i32,
    r: Result<i32, wasmtime::Error>,
)
    requires
        call_ensures(run_component_add, (use_pulley, a, b), r),
    ensures
        exists|config: wasmtime::Config, made: Result<wasmtime::Engine, wasmtime::Error>|
            #[trigger]
            call_ensures(new_engine, (&config,), made) && config_settings(config) == (
            EngineSettings {
                pulley: use_pulley,
                component_model: true,
                component_async: false,
                concurrency: true,
            }) && (match made {
                Ok(engine) => call_ensures(call_component_add, (&engine, ADD_COMPONENT_WAT, a, b), r),
                Err(e) => r == Err::<i32, wasmtime::Error>(e),
            }),
{
    let made = choose|made: Result<wasmtime::Engine, wasmtime::Error>| #[trigger]
        engine_gave(plain_settings(use_pulley), made) && component_add_gave(made, a, b, r);
    let config = choose|config: wasmtime::Config|
        config_settings(config) == plain_settings(use_pulley) && #[trigger] call_ensures(
            new_engine,
            (&config,),
            made,
        );
    assert(call_ensures(new_engine, (&config,), made));
}

/// A run of the program behind [`run_component_host_import`] fails only where the engine or the
/// program does, and its outcome comes from the backend that was asked for.
pub(crate) proof fn law_host_import_comes_from_its_run(
    use_pulley: bool,
    x: u32,
    r: Result<u32, wasmtime::Error>,
)
    requires
        call_ensures(run_component_host_import, (use_pulley, x), r),
    ensures
        exists|config: wasmtime::Config, made: Result<wasmtime::Engine, wasmtime::Error>|
            #[trigger]
            call_ensures(new_engine, (&config,), made) && config_settings(config) == (
            EngineSettings {
                pulley: use_pulley,
                component_model: true,
                component_async: false,
                concurrency: true,
            }) && (match made {
                Ok(engine) => call_ensures(call_host_import, (&engine, HOST_IMPORT_COMPONENT_WAT, x), r),
                Err(e) => r == Err::<u32, wasmtime::Error>(e),
            }),
{
    let made = choose|made: Result<wasmtime::Engine, wasmtime::Error>| #[trigger]
        engine_gave(plain_settings(use_pulley), made) && host_import_gave(made, x, r);
    let config = choose|config: wasmtime::Config|
        config_settings(config) == plain_settings(use_pulley) && #[trigger] call_ensures(
            new_engine,
            (&config,),
            made,
        );
    assert(call_ensures(new_engine, (&config,), made));
}

/// A run of the program behind [`run_gated_workspace_read`] fails only where the engine or the
/// program does, and its outcome comes from the backend that was asked for.
pub(crate) proof fn law_workspace_read_comes_from_its_run(
    use_pulley: bool,
    granted: bool,
    count: u32,
    r: Result<u32, wasmtime::Error>,
)
    requires
        call_ensures(run_gated_workspace_read, (use_pulley, granted, count), r),
    ensures
        exists|config: wasmtime::Config, made: Result<wasmtime::Engine, wasmtime::Error>|
            #[trigger]
            call_ensures(new_engine, (&config,), made) && config_settings(config) == (
            EngineSettings {
                pulley: use_pulley,
                component_model: true,
                component_async: false,
                concurrency: true,
            }) && (match made {
                Ok(engine) => call_ensures(call_workspace_read, (&engine, WORKSPACE_READ_COMPONENT_WAT, granted, count), r),
                Err(e) => r == Err::<u32, wasmtime::Error>(e),
            }),
{
    let made = choose|made: Result<wasmtime::Engine, wasmtime::Error>| #[trigger]
        engine_gave(plain_settings(use_pulley), made) && workspace_read_gave(made, granted, count, r);
    let config = choose|config: wasmtime::Config|
        config_settings(config) == plain_settings(use_pulley) && #[trigger] call_ensures(
            new_engine,
            (&config,),
            made,
        );
    assert(call_ensures(new_engine, (&config,), made));
}

/// A run of the program behind [`run_async_double`] fails only where the engine or the
/// program does, and its outcome comes from the backend that was asked for.
pub(crate) proof fn law_async_double_comes_from_its_run(
    use_pulley: bool,
    x: i32,
    r: Result<i32, wasmtime::Error>,
)
    requires
        call_ensures(run_async_double, (use_pulley, x), r),
    ensures
        exists|config: wasmtime::Config, made: Result<wasmtime::Engine, wasmtime::Error>|
            #[trigger]
            call_ensures(new_engine, (&config,), made) && config_settings(config) == (
            EngineSettings {
                pulley: use_pulley,
                component_model: true,
                component_async: false,
                concurrency: true,
            }) && (match made {
                Ok(engine) => call_ensures(call_async_double, (&engine, ASYNC_WAT, x), r),
                Err(e) => r == Err::<i32, wasmtime::Error>(e),
            }),
{
    let made = choose|made: Result<wasmtime::Engine, wasmtime::Error>| #[trigger]
        engine_gave(plain_settings(use_pulley), made) && async_double_gave(made, x, r);
    let config = choose|config: wasmtime::Config|
        config_settings(config) == plain_settings(use_pulley) && #[trigger] call_ensures(
            new_engine,
            (&config,),
            made,
        );
    assert(call_ensures(new_engine, (&config,), made));
}

/// A run of the program behind [`run_component_async_double`] fails only where the engine or the
/// program does, and its outcome comes from the backend that was asked for.
pub(crate) proof fn law_component_async_double_comes_from_its_run(
    use_pulley: bool,
    x: u32,
    r: Result<u32, wasmtime::Error>,
)
    requires
        call_ensures(run_component_async_double, (use_pulley, x), r),
    ensures
        exists|config: wasmtime::Config, made: Result<wasmtime::Engine, wasmtime::Error>|
            #[trigger]
            call_ensures(new_engine, (&config,), made) && config_settings(config) == (
            EngineSettings {
                pulley: use_pulley,
                component_model: true,
                component_async: true,
                concurrency: true,
            }) && (match made {
                Ok(engine) => call_ensures(call_component_async_double, (&engine, HOST_IMPORT_COMPONENT_WAT, x), r),
                Err(e) => r == Err::<u32, wasmtime::Error>(e),
            }),
{
    let made = choose|made: Result<wasmtime::Engine, wasmtime::Error>| #[trigger]
        engine_gave(async_settings(use_pulley), made) && component_async_double_gave(made, x, r);
    let config = choose|config: wasmtime::Config|
        config_settings(config) == async_settings(use_pulley) && #[trigger] call_ensures(
            new_engine,
            (&config,),
            made,
        );
    assert(call_ensures(new_engine, (&config,), made));
}

/// A run of the program behind [`run_canonical_async_double`] fails only where the engine or the
/// program does, and its outcome comes from the backend that was asked for.
pub(crate) proof fn law_canonical_async_double_comes_from_its_run(
    use_pulley: bool,
    x: u32,
    r: Result<u32, wasmtime::Error>,
)
    requires
        call_ensures(run_canonical_async_double, (use_pulley, x), r),
    ensures
        exists|config: wasmtime::Config, made: Result<wasmtime::Engine, wasmtime::Error>|
            #[trigger]
            call_ensures(new_engine, (&config,), made) && config_settings(config) == (
            EngineSettings {
                pulley: use_pulley,
                component_model: true,
                component_async: true,
                concurrency: true,
            }) && (match made {
                Ok(engine) => call_ensures(call_canonical_async_double, (&engine, CANON_ASYNC_WAT, x), r),
                Err(e) => r == Err::<u32, wasmtime::Error>(e),
            }),
{
    let made = choose|made: Result<wasmtime::Engine, wasmtime::Error>| #[trigger]
        engine_gave(async_settings(use_pulley), made) && canonical_async_double_gave(made, x, r);
    let config = choose|config: wasmtime::Config|
        config_settings(config) == async_settings(use_pulley) && #[trigger] call_ensures(
            new_engine,
            (&config,),
            made,
        );
    assert(call_ensures(new_engine, (&config,), made));
}

/// The host functions compute what the programs promise: a double modulo 2^32, and
/// the count behind the grant, all bits set without it.
pub proof fn law_host_functions(
    x: u32,
    y: i32,
    granted: bool,
    count: u32,
    d: u32,
    e: i32,
    g: u32,
)
    requires
        call_ensures(host_double, (x,), d),
        call_ensures(host_double_signed, (y,), e),
        call_ensures(gated_count, (granted, count), g),
    ensures
        d == (2 * x) % 0x1_0000_0000,
        (e - 2 * y) % 0x1_0000_0000 == 0,
        granted ==> g == count,
        !granted ==> g == 0xffff_ffff,
{
}

/// What the C interface returns is the smallest 64-bit number or the answer: the sum
/// modulo 2^32 as a signed number, exactly twice the argument, or the count behind
/// the grant.
pub proof fn law_c_results_are_the_answers(
    use_pulley: i32,
    a: i32,
    b: i32,
    granted: i32,
    count: u32,
    sum: i64,
    component_sum: i64,
    host: i64,
    module: i64,
    component: i64,
    canonical: i64,
    read: i64,
    ok: i32,
)
    requires
        call_ensures(hwr_eval_add, (use_pulley, a, b), sum),
        call_ensures(hwr_eval_component_add, (use_pulley, a, b), component_sum),
        call_ensures(hwr_eval_host_import, (use_pulley, a), host),
        call_ensures(hwr_run_async_double, (use_pulley, a), module),
        call_ensures(hwr_run_component_async_double, (use_pulley, a), component),
        call_ensures(hwr_run_canonical_async_double, (use_pulley, a), canonical),
        call_ensures(hwr_read_portfolio_count, (use_pulley, granted, count), read),
        call_ensures(hwr_self_test, (), ok),
    ensures
        sum == i64::MIN || (i32::MIN <= sum <= i32::MAX && (sum - a - b) % 0x1_0000_0000 == 0),
        component_sum == i64::MIN || (i32::MIN <= component_sum <= i32::MAX && (component_sum - a
            - b) % 0x1_0000_0000 == 0),
        host == i64::MIN || host == a + a,
        module == i64::MIN || module == a + a,
        component == i64::MIN || component == a + a,
        canonical == i64::MIN || canonical == a + a,
        read == i64::MIN || read == (if granted != 0 {
            count
        } else {
            0xffff_ffff
        }),
        ok == 0 || ok == 1,
{
}

/// The flat results of the C interface: the value, or the smallest 64-bit number for
/// an error.
pub proof fn law_flat_results(
    r: Result<i32, wasmtime::Error>,
    u: Result<u32, wasmtime::Error>,
    made: &Result<wasmtime::Engine, wasmtime::Error>,
    signed: i64,
    unsigned: i64,
    ok: i32,
)
    requires
        call_ensures(signed_result, (r,), signed),
        call_ensures(unsigned_result, (u,), unsigned),
        call_ensures(self_test_result, (made,), ok),
    ensures
        r matches Ok(v) ==> signed == v,
        r is Err ==> signed == -0x8000_0000_0000_0000,
        u matches Ok(v) ==> unsigned == v,
        u is Err ==> unsigned == -0x8000_0000_0000_0000,
        ok == 1 <==> made is Ok,
        ok == 0 <==> made is Err,
{
}

} // verus!
