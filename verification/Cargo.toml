[package]
name = "frb_lanes"
version = "0.1.0"
edition = "2021"
publish = false

[dependencies]
anyhow = "=1.0.104"
futures = "=0.3.34"
itertools = "=0.10.5"
js-sys = "=0.3.107"
syn = { version = "=2.0.119", features = ["full", "extra-traits"] }
threadpool = "=1.8.1"
tokio = { version = "=1.54.1", features = ["rt"] }
wasm-bindgen = "=0.2.130"
wasm-bindgen-futures = "=0.4.80"
web-sys = { version = "=0.3.107", features = ["Blob", "BlobPropertyBag", "console", "ErrorEvent", "Event", "MessageEvent", "Url", "Worker"] }
