[package]
name = "ogg_processor"
version = "0.1.0"
edition = "2021"
publish = false

[dependencies]
lewton = "0.10"
js-sys = "0.3"
wasm-bindgen = "0.2"
wasm-bindgen-futures = "0.4"
web-sys = { version = "0.3", features = ["console", "DedicatedWorkerGlobalScope", "Request", "RequestInit", "Response"] }
console_error_panic_hook = "0.1"

[dev-dependencies]
ogg = "0.8"
