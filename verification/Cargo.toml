[package]
name = "rustboy-core"
version = "0.1.0"
edition = "2021"
publish = false

[dependencies]
winit = "0.30"
pixels = "0.15"
wasm-bindgen = "0.2"
web-sys = { version = "0.3", features = ["CanvasRenderingContext2d", "Document", "Element", "HtmlCanvasElement", "ImageData", "Performance", "Window"] }
console_error_panic_hook = "0.1"
