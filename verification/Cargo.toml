[package]
name = "authority-claimer"
version = "0.1.0"
edition = "2021"
publish = false

[dependencies]
async-trait = "0.1"
ethers = { version = "2.0.14", default-features = false }
snafu = "0.7"
tokio = { version = "1", features = ["macros", "rt", "time"] }
tokio-stream = "0.1"
tracing = "0.1"
url = "2"
