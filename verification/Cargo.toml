[package]
name = "canvas_anim"
version = "0.1.0"
edition = "2021"
publish = false

[dependencies]
gloo = { version = "0.11", default-features = false, features = ["utils"] }
js-sys = "0.3"
wasm-bindgen = "0.2"
web-sys = { version = "0.3", features = ["CanvasRenderingContext2d", "Document", "Element", "HtmlCanvasElement", "ImageData", "Node", "Window", "console"] }
