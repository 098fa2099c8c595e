[package]
name = "vsd"
version = "0.1.0"
edition = "2021"
publish = false

[dependencies]
anyhow = "1"
clap = { version = "4", features = ["derive"] }
kdam = "*"
openssl = "0.10"
reqwest = { version = "0.11", features = ["blocking", "cookies"] }
