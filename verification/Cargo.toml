[package]
name = "prellblock"
version = "0.1.0"
edition = "2021"
publish = false

[dependencies]
im = "15"
hexutil = "*"
rand = "0.7"
serde = { version = "1", features = ["derive"] }
serde_json = "1"
postcard = { version = "1", features = ["use-std"] }
sled = "*"
chrono = "0.4"
log = "0.4"
