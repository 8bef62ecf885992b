[package]
name = "chord-generator"
version = "0.1.0"
edition = "2021"
publish = false

[dependencies]
clap = { version = "4", features = ["derive"] }
realfft = "3"
rustfft = "6"
zerocopy = "0.8"
