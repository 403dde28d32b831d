[package]
name = "scrimbot"
version = "0.1.0"
edition = "2021"
publish = false

[dependencies]
rand = "0.9"
tzdb = "*"
scraper = "*"
serde = { version = "*", features = ["derive"] }
serde_json = "*"
time = { version = "*", features = ["parsing", "formatting"] }
reqwest = { version = "*", default-features = false, features = ["blocking", "json", "rustls-tls"] }
