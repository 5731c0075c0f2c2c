[package]
name = "gz_viewer"
version = "0.1.0"
edition = "2021"
publish = false

[dependencies]
serde_json = "=1.0.154"
prost = "=0.14.4"
crossbeam-channel = "=0.5.17"
tungstenite = "=0.30.0"
ureq = "=3.5.1"
js-sys = "*"
wasm-bindgen = "*"
wasm-bindgen-futures = "*"
console_error_panic_hook = "*"
web-sys = { version = "*", features = ["Window", "Location", "Document", "Element", "WebSocket", "BinaryType", "MessageEvent", "ErrorEvent", "CloseEvent", "Blob", "FileReader", "Request", "RequestInit", "Response"] }
