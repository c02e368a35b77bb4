[package]
name = "linkstore"
version = "0.1.0"
edition = "2021"
publish = false

[dependencies]
uuid = { version = "=1.27.0", features = ["v4", "js"] }
js-sys = "=0.3.106"
worker = { version = "=0.8.7", features = ["d1"] }
serde = { version = "*", features = ["derive"] }
serde_json = "*"
