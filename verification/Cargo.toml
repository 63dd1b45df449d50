[package]
name = "wasmworker"
version = "0.1.0"
edition = "2021"
publish = false

[dependencies]
postcard = { version = "*", default-features = false, features = ["use-std"] }
serde = { version = "*", features = ["derive"] }
serde_bytes = "*"
serde-wasm-bindgen = "*"
wasm-bindgen = "*"
js-sys = "*"
web-sys = { version = "*", features = ["Blob", "BlobPropertyBag", "MessageEvent", "Url", "Worker", "WorkerOptions", "WorkerType", "Window", "Navigator", "Document", "Element", "HtmlElement", "HtmlInputElement"] }
tokio = { version = "*", features = ["sync"] }
futures = "*"
send_wrapper = "*"
thiserror = "*"
rand = "*"
