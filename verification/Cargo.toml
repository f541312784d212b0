[package]
name = "transfer_engine"
version = "0.1.0"
edition = "2021"
publish = false

[dependencies]
url = "2"
reqwest = { version = "0.12", default-features = false, features = ["stream", "multipart"] }
tokio = { version = "1", features = ["rt", "rt-multi-thread", "fs", "io-util", "macros", "sync", "time"] }
tokio-util = { version = "0.7", features = ["io"] }
futures-util = "0.3"
flate2 = "1"
tar = "0.4"
