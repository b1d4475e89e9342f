[package]
name = "ahnlich_ai_proxy"
version = "0.1.0"
edition = "2021"
publish = false

[dependencies]
papaya = "0.2"
itertools = "0.14"
image = { version = "0.25", default-features = false, features = ["png", "jpeg"] }
dirs = "6"
serde = { version = "1", features = ["derive"] }
serde_json = "1"
clap = { version = "4", features = ["derive"] }
termcolor = "1"
