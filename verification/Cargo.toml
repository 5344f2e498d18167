[package]
name = "cargo-project-finder"
version = "0.1.0"
edition = "2021"
publish = false

[dependencies]
clap = "4"
prettytable-rs = { version = "0.10", default-features = false }
serde = { version = "1", features = ["derive"] }
serde_json = "1"
sha2 = "0.10"
walkdir = "2"
