[package]
name = "surrealdb_wasm"
version = "0.1.0"
edition = "2021"
publish = false

[dependencies]
cargo-lock = "*"
chrono = "0.4"
ciborium = "0.2"
console_error_panic_hook = "0.1"
fern = "0.6"
futures = "0.3"
js-sys = "0.3"
log = "0.4"
once_cell = "1"
serde = { version = "1", features = ["derive"] }
serde_json = "1"
serde-wasm-bindgen = "0.6"
surrealdb = { version = "~1.5", default-features = false }
thiserror = "1"
uuid = "1"
wasm-bindgen = "0.2"
wasm-bindgen-futures = "0.4"
wasm-streams = "0.4"
web-sys = { version = "0.3", features = ["console"] }
