[package]
name = "wd_tools"
version = "0.1.0"
edition = "2021"
publish = false

[dependencies]
base64 = "0.22"
rustc-serialize = "0.3"
rust-crypto = "0.2"
regex = "1"
uuid = { version = "1", features = ["v4", "v5"] }
rand = "0.9"
wd_sonyflake = "*"
tokio = { version = "1", features = ["rt", "rt-multi-thread", "time", "sync", "fs", "macros"] }
futures = "0.3"
reqwest = { version = "0.12", default-features = false }
async-trait = "0.1"
pin-project-lite = "0.2"
anyhow = "1"
