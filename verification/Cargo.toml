[package]
name = "mise_otel"
version = "0.1.0"
edition = "2021"
publish = false

[dependencies]
eyre = "0.6"
rand = "0.9"
reqwest = { version = "0.12", default-features = false, features = ["json"] }
serde = { version = "1", features = ["derive"] }
tokio = { version = "1", features = ["rt", "sync", "time", "macros"] }
