[package]
name = "transaction_store"
version = "0.1.0"
edition = "2021"
publish = false

[dependencies]
miden-objects = "0.8"
miden-tx = "0.8"
serde-wasm-bindgen = "0.6"
wasm-bindgen-futures = "0.4"
wasm-bindgen = "0.2"
js-sys = "0.3"
serde = { version = "1", features = ["derive"] }
