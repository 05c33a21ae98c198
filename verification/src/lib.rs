//! Host core of the HelloHQ WebAssembly plugin runtime.
//!
//! Plugins are WebAssembly components that import capabilities from their host.
//! This crate decides what each capability does: the gated `workspace`,
//! `storage`, `events` and `log` hosts, the outbound fetch gate, the `wasi:http`
//! resources and how a request is answered, the `inference` host, the JSON wire
//! of the typed hosts, and the caller's side of the host-call round-trips. The
//! contracts say what every call returns and changes; linking the capabilities
//! into components, threads and the C interface live around the crate.
use vstd::prelude::*;

pub mod api;
pub mod capstone;
pub mod digits;
pub mod engine;
pub mod fetch_gate;
pub mod fields;
pub mod guests;
pub mod hex;
pub mod host_wire;
pub mod http_exchange;
pub mod http_head;
pub mod http_streams;
pub mod inference;
pub mod instance;
pub mod ip_literal;
pub mod json;
pub mod p3;
pub mod plugin_host;
pub mod plugin_host_bytes;
pub mod plugin_host_full;
pub mod plugin_host_storage_events;
pub mod resource_table;
pub mod storage_events;
pub mod text;
pub mod wasi_guests;
pub mod wasi_http;

pub use engine::{
    hwr_eval_add, hwr_eval_component_add, hwr_eval_host_import, hwr_read_portfolio_count,
    hwr_run_async_double, hwr_run_canonical_async_double, hwr_run_component_async_double,
    hwr_self_test,
};
pub use instance::{
    hwr_engine_new, hwr_precompile_component, HwrEngine, HwrInstance,
};
pub use p3::{
    HwrP3Session, HwrP3Stream, P3Event, P3sEvent, P3sOut, HWR_P3S_DONE, HWR_P3S_ERROR, HWR_P3S_OUT,
    HWR_P3S_OUT_END, HWR_P3_DONE, HWR_P3_ERROR, HWR_P3_PENDING,
};

verus! {

/// Version of the C interface. It grows on every breaking change of the exported
/// surface, so that a loader can refuse a library that does not match.
pub const HWR_ABI_VERSION: u32 = 1;

/// Returns the version of the C interface, the loader's handshake.
pub fn hwr_abi_version() -> (version: u32)
    ensures
        version == HWR_ABI_VERSION,
{
    HWR_ABI_VERSION
}

/// The interface is at version 1.
pub proof fn law_interface_version(version: u32)
    requires
        call_ensures(hwr_abi_version, (), version),
    ensures
        version == 1,
{
}

} // verus!
