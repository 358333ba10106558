[package]
name = "pays"
version = "0.1.0"
edition = "2021"
publish = false

[dependencies]
leptos = { version = "=0.4.10", features = ["csr"] }
log = "=0.4.34"
serde = { version = "=1.0.229", features = ["derive"] }
serde_json = "=1.0.154"
uuid = { version = "=1.29.0", features = ["v4", "serde"] }
web-sys = { version = "=0.3.106", features = ["Event", "FocusEvent", "HtmlInputElement", "KeyboardEvent", "Storage", "Window"] }
