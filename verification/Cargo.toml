[package]
name = "transfer_file"
version = "0.1.0"
edition = "2021"
publish = false

[dependencies]
futures = "*"
futures-util = "*"
read-progress-stream = "*"
reqwest = { version = "*", default-features = false, features = ["stream"] }
tokio = { version = "*", default-features = false, features = ["fs", "io-util", "sync"] }
tokio-util = { version = "*", default-features = false, features = ["codec"] }
