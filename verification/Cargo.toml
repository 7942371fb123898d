[package]
name = "game_of_life"
version = "0.1.0"
edition = "2021"
publish = false

[dependencies]
wasm-bindgen = "*"
web-sys = { version = "*", features = [
    "CanvasRenderingContext2d",
    "DataTransfer",
    "Document",
    "DomRect",
    "DragEvent",
    "Element",
    "Event",
    "EventTarget",
    "HtmlButtonElement",
    "HtmlCanvasElement",
    "HtmlElement",
    "MouseEvent",
    "Node",
    "Performance",
    "Window",
    "console",
] }
console_error_panic_hook = "*"
