[package]
name = "reversi"
version = "0.1.0"
edition = "2021"
publish = false

[dependencies]
serde = { version = "1", features = ["derive"] }
serde_json = "1"
ureq = { version = "2", default-features = false, features = ["json"] }
tokio = { version = "1", features = ["rt", "net", "sync", "io-util", "macros", "time"] }
