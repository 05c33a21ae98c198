[package]
name = "hellohq_wasm_runtime"
version = "0.1.0"
edition = "2021"
publish = false

[dependencies]
futures-channel = "0.3"
futures-util = "0.3"
hyper = "1"
pollster = "0.4"
serde_json = "1"
wasmtime = { version = "45", features = ["async", "component-model", "component-model-async", "cranelift", "pulley", "runtime", "wat"] }
wasmtime-wasi = "45"
wasmtime-wasi-http = "45"
