[package]
name = "netmux"
version = "0.1.0"
edition = "2021"
publish = false

[dependencies]
tokio = { version = "1", features = ["sync", "net", "rt", "rt-multi-thread", "io-util", "time", "macros"] }
deunicode = "1"
bytes = "1"
serde = { version = "1", features = ["derive"] }
quinn = "0.11"
