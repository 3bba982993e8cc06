[package]
name = "liblitho"
version = "0.1.0"
edition = "2021"
publish = false

[dependencies]
sha2 = "*"
rust-lzma = "*"
serde = { version = "*", features = ["derive"] }
serde_json = "*"
libc = "*"
tempfile = "*"
tokio = { version = "*", features = ["sync", "rt-multi-thread", "macros"] }
clap = { version = "*", features = ["derive"] }
env_logger = "*"
simple-pub-sub = "*"
