[package]
name = "librarian"
version = "0.1.0"
edition = "2021"
publish = false

[dependencies]
dioxus = { version = "0.5", features = ["web"] }
dioxus-logger = "0.5"
futures-util = "0.3"
idb = "0.6"
js-sys = "0.3"
serde = { version = "1", features = ["derive", "rc"] }
serde_json = "1"
serde-wasm-bindgen = "0.6"
tracing = "0.1"
wasm-bindgen = "0.2"
wasm-bindgen-futures = "0.4"
web-sys = { version = "0.3", features = ["FileSystemFileHandle", "FileSystemHandle"] }
