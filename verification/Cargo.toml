[package]
name = "c2pa_wasm"
version = "0.1.0"
edition = "2021"
publish = false

[dependencies]
async-trait = "*"
c2pa = { version = "=0.77.1", default-features = false, features = ["rust_native_crypto", "json_schema"] }
console_error_panic_hook = "*"
js-sys = "*"
schemars = "*"
serde = { version = "*", features = ["derive"] }
serde_bytes = "*"
serde_json = "*"
serde-wasm-bindgen = "*"
thiserror = "*"
wasm-bindgen = "*"
wasm-bindgen-futures = "*"
web-sys = { version = "*", features = ["Blob", "FileReaderSync"] }
