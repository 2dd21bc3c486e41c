[package]
name = "five_hundred"
version = "0.1.0"
edition = "2021"
publish = false

[dependencies]
rand = "*"
serde = { version = "*", features = ["derive"] }
serde_json = "*"
tokio = { version = "*", features = ["macros", "net", "rt-multi-thread", "sync"] }
tokio-tungstenite = "*"
futures-util = "*"
log = "*"
unique_id = "*"
