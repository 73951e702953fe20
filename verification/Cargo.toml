[package]
name = "gosh_fetch"
version = "0.1.0"
edition = "2021"
publish = false

[dependencies]
rusqlite = { version = "*", features = ["bundled"] }
dirs = "*"
reqwest = { version = "*", default-features = false, features = ["blocking", "rustls-tls"] }
