[package]
name = "ratzilla_dom"
version = "0.1.0"
edition = "2021"
publish = false

[dependencies]
ratatui = { version = "0.30", default-features = false, features = ["std"] }
unicode-width = "0.2"
web-sys = { version = "0.3", features = [
    "Window",
    "Document",
    "Element",
    "HtmlElement",
    "HtmlBodyElement",
    "DomRect",
    "DomTokenList",
    "Event",
    "EventTarget",
    "MouseEvent",
    "WheelEvent",
    "KeyboardEvent",
    "Node",
    "Screen",
] }
