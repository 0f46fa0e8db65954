[package]
name = "senet"
version = "0.1.0"
edition = "2021"
publish = false

[dependencies]
console_error_panic_hook = "*"
js-sys = "*"
serde = { version = "*", features = ["derive"] }
serde-wasm-bindgen = "*"
wasm-bindgen = "*"
