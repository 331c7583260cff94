[package]
name = "core_p2p"
version = "0.2.0"
edition = "2021"
publish = false

[dependencies]
sha2 = "0.10"
hex = "0.4"
iroh = "*"
tokio = { version = "1", features = ["rt-multi-thread", "sync", "time", "macros"] }
napi = { version = "*", features = ["async"] }
napi-derive = "*"
once_cell = "1"
futures-util = { version = "0.3", features = ["io"] }
wasm-bindgen = "0.2"
js-sys = "0.3"
console_error_panic_hook = "0.1"
