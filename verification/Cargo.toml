[package]
name = "toxiproxy_rust"
version = "0.1.0"
edition = "2021"
publish = false

[dependencies]
http = "*"
lazy_static = "*"
reqwest = { version = "*", default-features = false, features = ["blocking"] }
serde = { version = "*", features = ["derive"] }
serde_json = "*"
