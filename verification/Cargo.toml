[package]
name = "colgrep-cloud"
version = "0.1.0"
edition = "2021"
publish = false

[dependencies]
base64 = "=0.22.1"
pbkdf2 = "=0.12.2"
sha2 = "=0.10.9"
getrandom = "=0.2.17"
serde = { version = "=1.0.229", features = ["derive"] }
serde_json = "=1.0.154"
worker = { version = "=0.8.7", features = ["d1"] }
wasm-bindgen = "=0.2.130"
js-sys = "=0.3.107"
