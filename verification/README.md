# hellohq_wasm_runtime

The host core of the HelloHQ WebAssembly plugin runtime, verified with Verus.

Plugins are WebAssembly components. They import capabilities from their host, and
the host decides what each capability does. The decisions live in `src/`, with
contracts that say what every call returns and changes:

- `capstone`, `storage_events`: the gated `workspace` and `storage`, and the
  always available `events` and `log`, with their quotas and caps.
- `fetch_gate`, `ip_literal`, `wasi_guests`: which outbound requests of a plugin
  are let through.
- `wasi_http`, `fields`, `resource_table`: the `wasi:http` resources.
- `http_exchange`, `http_head`, `http_streams`: how a request is answered, in the
  host or by its caller.
- `inference`: how a completion is asked for and its tokens come back.
- `p3`: the caller's side of the host-call round-trips.
- `json`, `host_wire`, `plugin_host*`: the JSON wire of the typed hosts.
- `engine`, `instance`: engines, compiled components, instance handles, and the
  programs that prove a backend runs.
- `guests`: what the test guests make of the replies they get.
- `text`, `digits`, `hex`, `plugin_host_bytes`, `api`: texts, numbers and codecs.

What is taken on trust is the behaviour of `wasmtime`, `serde_json`, `hyper` and a
few functions of the standard library. Each such function is declared once, with
a comment that says what is claimed of it.

`app/` holds what surrounds the core: the C interface, worker threads and
channels, and the linkers that give components their imports. `tests/` runs the
library with the real crates.
