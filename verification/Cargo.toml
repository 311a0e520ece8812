[package]
name = "zero_tail"
version = "0.1.0"
edition = "2021"
publish = false

[dependencies]
sha256 = { version = "1", default-features = false }
clap = { version = "4", features = ["derive"] }
