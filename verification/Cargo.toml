[package]
name = "entertainarr"
version = "0.1.0"
edition = "2021"
publish = false

[dependencies]
regex = "1"
mime_guess = "2"
limace = "*"
tokio = { version = "1", features = ["process", "fs", "io-util", "rt", "sync", "time", "macros"] }
tokio-util = "0.7"
serde = { version = "1", features = ["derive"] }
