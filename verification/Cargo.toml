[package]
name = "why_rs"
version = "0.1.0"
edition = "2021"
publish = false

[dependencies]
petgraph = "0.6"
futures-signals = "0.3"
dominator = "0.5"
wasm-bindgen = "0.2"
web-sys = { version = "0.3", features = ["Element", "HtmlElement", "HtmlInputElement", "SvgElement", "SvgGraphicsElement", "SvgGeometryElement", "SvgPathElement", "SvgPoint"] }
log = "0.4"
once_cell = "1"
console_error_panic_hook = "0.1"
wasm-logger = "0.2"
