[package]
name = "black_friday"
version = "0.1.0"
edition = "2021"
publish = false

[dependencies]
rand = "0.8"
js-sys = "0.3"
wasm-bindgen = "0.2"
wasm-bindgen-futures = "0.4"
web-sys = { version = "0.3", features = ["CanvasRenderingContext2d", "Document", "Element", "Event", "EventTarget", "HtmlCanvasElement", "KeyboardEvent", "Storage", "Window"] }
rcade-plugin-input-classic = "*"
