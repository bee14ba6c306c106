[package]
name = "starfin"
version = "0.1.0"
edition = "2021"
publish = false

[dependencies]
chrono = { version = "0.4", default-features = false, features = ["alloc"] }
serde = { version = "=1.0.229", features = ["derive"] }
serde_json = "=1.0.154"
gloo-net = "=0.7.0"
gloo-timers = { version = "=0.4.0", features = ["futures"] }
js-sys = "=0.3.107"
wasm-bindgen = "=0.2.130"
wasm-bindgen-futures = "=0.4.80"
web-sys = { version = "=0.3.107", features = ["HtmlVideoElement", "MediaSource", "SourceBuffer", "TimeRanges", "Url", "Window", "Document", "HtmlElement", "Element"] }
log = "=0.4.35"
