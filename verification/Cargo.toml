[package]
name = "staxping"
version = "0.1.0"
edition = "2021"
publish = false

[dependencies]
clap = { version = "*", features = ["derive"] }
rand = "*"
reqwest = { version = "*", default-features = false }
serde = { version = "*", features = ["derive"] }
serde_json = "*"
socket2 = "*"
surge-ping = "*"
tokio = { version = "*", features = ["rt-multi-thread", "macros", "process", "time"] }
trust-dns-resolver = "*"
