[package]
name = "qshare"
version = "0.1.0"
edition = "2021"
publish = false

[dependencies]
md5 = "*"
reqwest = { version = "*", default-features = false }
tokio = { version = "*", features = ["rt-multi-thread", "macros"] }
async-trait = "*"
anyhow = "*"
dotenvy = "*"
chrono = "*"
serde = { version = "*", features = ["derive"] }
