[package]
name = "drawcore"
version = "0.1.0"
edition = "2021"
publish = false

[dependencies]
wasm-bindgen = "*"
js-sys = "*"
wasm-bindgen-futures = "*"
serde = { version = "*", features = ["derive"] }
serde_json = "*"
web-sys = { version = "*", features = [
    "Window",
    "Document",
    "Element",
    "HtmlElement",
    "HtmlCanvasElement",
    "CssStyleDeclaration",
    "CanvasRenderingContext2d",
    "WebSocket",
    "MessageEvent",
    "ErrorEvent",
    "MouseEvent",
    "EventTarget",
    "Node",
    "Request",
    "RequestInit",
    "RequestMode",
    "Response",
    "Headers",
    "console",
] }
