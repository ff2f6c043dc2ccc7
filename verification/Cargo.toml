[package]
name = "compdb"
version = "0.1.0"
edition = "2021"
publish = false

[dependencies]
serde_json = "1"
regex = "1"
serde = { version = "1", features = ["derive"] }
clap = { version = "4", features = ["derive"] }
fs2 = "0.4"
