[package]
name = "hlsget"
version = "0.1.0"
edition = "2021"
publish = false

[dependencies]
url = "*"
reqwest = { version = "*", default-features = false }
tokio = { version = "*", features = ["macros", "rt-multi-thread", "fs", "io-util", "time"] }
pbr = "*"
clap = { version = "*", features = ["derive"] }
