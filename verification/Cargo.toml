[package]
name = "ignite_composite_renderer"
version = "0.1.0"
edition = "2021"
publish = false

[dependencies]
oxygengine-composite-renderer = "=0.14.2"
oxygengine-composite-renderer-backend-web = "=0.14.2"
typid = "=1.1.1"
serde = { version = "=1.0.229", features = ["derive"] }
wasm-bindgen = { version = "=0.2.129", features = ["serde-serialize"] }
web-sys = { version = "=0.3.106", features = ["HtmlCanvasElement", "HtmlImageElement", "FontFace"] }
lazy_static = "=1.5.1"
console_error_panic_hook = "=0.1.7"
