[package]
name = "kraken_regime"
version = "0.1.0"
edition = "2021"
publish = false

[dependencies]
serde = { version = "1", features = ["derive"] }
serde_json = "1"
tokio = { version = "1", features = ["rt", "sync", "macros", "time"] }
reqwest = { version = "*", default-features = false, features = ["json"] }
