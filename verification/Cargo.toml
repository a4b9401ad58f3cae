[package]
name = "rainbow"
version = "0.1.0"
edition = "2021"
publish = false

[dependencies]
anyhow = "1"
clap = { version = "3", features = ["derive"] }
colored = "2"
confy = "0.4"
serde = { version = "1", features = ["derive"] }
serialport = { version = "4", default-features = false }
