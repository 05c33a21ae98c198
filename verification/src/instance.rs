//! Engine and instance handles: make an engine once, compile components for it,
//! keep their instances.
//!
//! A component is a stranger's code, and running it may take for ever. So whoever
//! holds these handles instantiates it and calls its exports, and hands over what
//! came back. A missing handle, a missing buffer and every failure give nothing, or the
//! smallest 64-bit number where a number is returned.
use crate::engine::{
    engine_gave, engine_settings, is_set, make_engine, plain_settings, signed_result,
    EngineSettings,
};
use vstd::prelude::*;

verus! {

/// `wasmtime`'s store.
#[verifier::external_type_specification]
#[verifier::external_body]
#[verifier::reject_recursive_types(T)]
pub struct ExStore<T: 'static>(wasmtime::Store<T>);

/// `wasmtime`'s compiled component.
#[verifier::external_type_specification]
#[verifier::external_body]
pub struct ExComponent(wasmtime::component::Component);

/// `wasmtime`'s component instance.
#[verifier::external_type_specification]
#[verifier::external_body]
pub struct ExInstance(wasmtime::component::Instance);

/// An engine on its chosen backend.
pub struct HwrEngine {
    pub(crate) engine: wasmtime::Engine,
}

/// An instantiated component and the store that owns it.
pub struct HwrInstance {
    pub store: wasmtime::Store<()>,
    pub instance: wasmtime::component::Instance,
}

/// What a compiled component comes from: the bytes that were compiled, and the
/// settings of the engine that compiled them.
#[verifier::ext_equal]
pub struct Origin {
    /// The component's binary or text form.
    pub bytes: Seq<u8>,
    /// The engine's settings.
    pub settings: EngineSettings,
}

/// What a component comes from.
pub uninterp spec fn component_origin(component: wasmtime::component::Component) -> Origin;

/// Whether bytes are a serialized form of the component that `bytes` are the
/// binary or text form of, made by an engine with the given settings.
pub uninterp spec fn is_artifact_of(
    artifact: Seq<u8>,
    bytes: Seq<u8>,
    settings: EngineSettings,
) -> bool;

/// `Component::new`: compiles a component from its binary or text form for an
/// engine. Which bytes are a component is left unsaid.
#[verifier::external_body]
pub(crate) fn compile(engine: &wasmtime::Engine, bytes: &[u8]) -> (r: Result<
    wasmtime::component::Component,
    wasmtime::Error,
>)
    ensures
        r is Ok ==> component_origin(r->Ok_0).bytes == bytes@,
        r is Ok ==> component_origin(r->Ok_0).settings == engine_settings(*engine),
{
    wasmtime::component::Component::new(engine, bytes)
}

/// `Engine::precompile_component`: a serialized form of a component for the
/// engine's target. Which bytes it is depends on the machine and is left unsaid.
#[verifier::external_body]
pub(crate) fn precompile(engine: &wasmtime::Engine, bytes: &[u8]) -> (r: Result<Vec<u8>, wasmtime::Error>)
    ensures
        r is Ok ==> is_artifact_of(r->Ok_0@, bytes@, engine_settings(*engine)),
{
    engine.precompile_component(bytes)
}

impl HwrEngine {
    /// The settings that the engine was made with.
    pub closed spec fn settings(&self) -> EngineSettings {
        engine_settings(self.engine)
    }

    /// The handle of an engine; nothing where none was made.
    pub fn from_made(made: Result<wasmtime::Engine, wasmtime::Error>) -> (r: Option<HwrEngine>)
        ensures
            r is Some <==> made is Ok,
            r is Some ==> r->0.settings() == engine_settings(made->Ok_0),
    {
        match made {
            Ok(engine) => Some(HwrEngine { engine }),
            Err(_) => None,
        }
    }

    /// The engine itself.
    pub fn engine(&self) -> (engine: &wasmtime::Engine)
        ensures
            engine_settings(*engine) == self.settings(),
    {
        &self.engine
    }
}

impl HwrInstance {
    /// The handle of an instance and the store it was made in; nothing where it
    /// could not be made.
    pub fn from_made(
        made: Result<(wasmtime::Store<()>, wasmtime::component::Instance), wasmtime::Error>,
    ) -> (r: Option<HwrInstance>)
        ensures
            r == (match made {
                Ok((store, instance)) => Some(HwrInstance { store, instance }),
                Err(_) => None,
            }),
    {
        match made {
            Ok((store, instance)) => Some(HwrInstance { store, instance }),
            Err(_) => None,
        }
    }
}

/// Makes an engine; a non-zero `use_pulley` chooses the interpreter.
pub fn hwr_engine_new(use_pulley: i32) -> (r: Option<HwrEngine>)
    ensures
        r is Some ==> r->0.settings() == plain_settings(use_pulley != 0),
        exists|made: Result<wasmtime::Engine, wasmtime::Error>| #[trigger]
            engine_gave(plain_settings(is_set(use_pulley)), made) && (r is Some <==> made is Ok),
{
    assert(is_set(use_pulley) == (use_pulley != 0));
    HwrEngine::from_made(make_engine(use_pulley != 0))
}

/// The component, where one was compiled.
pub fn component_if_compiled(
    compiled: Result<wasmtime::component::Component, wasmtime::Error>,
) -> (r: Option<wasmtime::component::Component>)
    ensures
        r == (match compiled {
            Ok(component) => Some(component),
            Err(_) => None,
        }),
{
    match compiled {
        Ok(component) => Some(component),
        Err(_) => None,
    }
}

/// Whether compiling these bytes on this engine gave this outcome.
pub closed spec fn compile_gave(
    engine: &wasmtime::Engine,
    bytes: &[u8],
    compiled: Result<wasmtime::component::Component, wasmtime::Error>,
) -> bool {
    call_ensures(compile, (engine, bytes), compiled)
}

/// Whether serializing the component in these bytes on this engine gave this
/// outcome.
pub closed spec fn precompile_gave(
    engine: &HwrEngine,
    bytes: &[u8],
    made: Result<Vec<u8>, wasmtime::Error>,
) -> bool {
    call_ensures(precompile, (&engine.engine, bytes), made)
}

/// Compiles a component from its binary or text form; nothing where the bytes
/// are missing or could not be compiled.
pub fn load_component(engine: &wasmtime::Engine, bytes: Option<&[u8]>) -> (r: Option<
    wasmtime::component::Component,
>)
    ensures
        bytes is None ==> r is None,
        r is Some ==> component_origin(r->0) == (Origin {
            bytes: bytes->0@,
            settings: engine_settings(*engine),
        }),
        bytes matches Some(b) ==> exists|compiled: Result<
            wasmtime::component::Component,
            wasmtime::Error,
        >| #[trigger]
            compile_gave(engine, b, compiled) && r == compiled.ok(),
{
    match bytes {
        Some(b) => {
            let compiled = compile(engine, b);
            assert(compile_gave(engine, b, compiled));
            component_if_compiled(compiled)
        },
        None => None,
    }
}

/// The outcome of a call of an instance's `add` as the C interface returns it:
/// the value, or the smallest 64-bit number where there was no instance or the
/// call failed.
pub fn called_result(called: Option<Result<i32, wasmtime::Error>>) -> (n: i64)
    ensures
        n == (match called {
            Some(Ok(v)) => v as i64,
            _ => i64::MIN,
        }),
{
    match called {
        Some(r) => signed_result(r),
        None => i64::MIN,
    }
}

/// The serialized form of a component, where one was made.
pub fn artifact_if_made(made: Result<Vec<u8>, wasmtime::Error>) -> (r: Option<Vec<u8>>)
    ensures
        r == (match made {
            Ok(artifact) => Some(artifact),
            Err(_) => None,
        }),
{
    match made {
        Ok(artifact) => Some(artifact),
        Err(_) => None,
    }
}

/// Compiles a component to its serialized form; nothing where a handle or the
/// bytes are missing.
pub fn hwr_precompile_component(engine: Option<&HwrEngine>, bytes: Option<&[u8]>) -> (r: Option<
    Vec<u8>,
>)
    ensures
        engine is None || bytes is None ==> r is None,
        r is Some ==> is_artifact_of(r->0@, bytes->0@, engine->0.settings()),
        engine is Some && bytes is Some ==> exists|made: Result<Vec<u8>, wasmtime::Error>|
            #[trigger]
            precompile_gave(engine->0, bytes->0, made) && r == made.ok(),
{
    match (engine, bytes) {
        (Some(e), Some(b)) => {
            let made = precompile(&e.engine, b);
            assert(precompile_gave(e, b, made));
            artifact_if_made(made)
        },
        _ => None,
    }
}

// ── Laws ────────────────────────────────────────────────────────────────────

/// Loading fails only where compiling fails: what [`load_component`] returns for
/// bytes is what compiling just these bytes on just this engine gave.
pub(crate) proof fn law_loading_fails_only_where_compiling_fails(
    engine: &wasmtime::Engine,
    bytes: &[u8],
    r: Option<wasmtime::component::Component>,
)
    requires
        call_ensures(load_component, (engine, Some(bytes)), r),
    ensures
        exists|compiled: Result<wasmtime::component::Component, wasmtime::Error>| #[trigger]
            call_ensures(compile, (engine, bytes), compiled) && (match compiled {
                Ok(component) => r == Some(component),
                Err(_) => r is None,
            }),
        r matches Some(component) ==> component_origin(component).bytes == bytes@
            && component_origin(component).settings == engine_settings(*engine),
{
    let compiled = choose|compiled: Result<wasmtime::component::Component, wasmtime::Error>|
        #[trigger]
        compile_gave(engine, bytes, compiled) && r == compiled.ok();
    assert(call_ensures(compile, (engine, bytes), compiled));
}

/// Serializing fails only where the engine fails at it: what
/// [`hwr_precompile_component`] returns for a handle and bytes is what serializing
/// just these bytes on just this engine gave.
pub(crate) proof fn law_precompiling_fails_only_where_the_engine_fails(
    engine: &HwrEngine,
    bytes: &[u8],
    r: Option<Vec<u8>>,
)
    requires
        call_ensures(hwr_precompile_component, (Some(engine), Some(bytes)), r),
    ensures
        exists|made: Result<Vec<u8>, wasmtime::Error>| #[trigger]
            call_ensures(precompile, (&engine.engine, bytes), made) && (match made {
                Ok(artifact) => r == Some(artifact),
                Err(_) => r is None,
            }),
{
    let made = choose|made: Result<Vec<u8>, wasmtime::Error>| #[trigger]
        precompile_gave(engine, bytes, made) && r == made.ok();
    assert(call_ensures(precompile, (&engine.engine, bytes), made));
}

} // verus!
