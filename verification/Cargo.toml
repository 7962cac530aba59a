[package]
name = "webdev_tools"
version = "0.1.0"
edition = "2021"
publish = false

[dependencies]
url = "2"
uuid = { version = "1", features = ["v4", "js"] }
serde = { version = "1", features = ["derive"] }
serde_json = "1"
serde_urlencoded = "0.7"
cookie = { version = "*", features = ["percent-encode"] }
fast_qr = { version = "*", features = ["svg"] }
http = "1"
web-sys = { version = "0.3", features = ["Window", "Storage", "Location", "Document", "HtmlDocument"] }
wasm-bindgen = "0.2"
dom_query = "*"
html-cleaning = "*"
