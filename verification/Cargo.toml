[package]
name = "ogmios_client"
version = "0.1.0"
edition = "2021"
publish = false

[dependencies]
serde = { version = "*", features = ["derive"] }
serde_json = "*"
tokio = { version = "*", features = ["rt", "rt-multi-thread", "macros", "sync", "net", "time"] }
tokio-tungstenite = "*"
futures-util = "*"
reqwest = { version = "*", default-features = false, features = ["json"] }
