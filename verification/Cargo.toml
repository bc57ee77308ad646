[package]
name = "tubepeek_server"
version = "0.1.0"
edition = "2021"
publish = false

[dependencies]
ws = "*"
serde = { version = "*", features = ["derive"] }
serde_json = "*"
chrono = "*"
reqwest = { version = "*", default-features = false, features = ["blocking", "json", "rustls-tls"] }
