[package]
name = "localbak"
version = "0.1.0"
edition = "2021"
publish = false

[dependencies]
clap = { version = "4", features = ["derive"] }
tar = "0.4"
zstd = "0.13"
