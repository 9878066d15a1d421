[package]
name = "galdrar"
version = "0.1.0"
edition = "2021"
publish = false

[dependencies]
serde_json = "1"
regex = "1"
serde = "1"
serde_derive = "1"
chrono = "0.4"
ratatui = "*"
crossterm = "*"
reqwest = { version = "0.12", default-features = false, features = ["blocking", "rustls-tls"] }
