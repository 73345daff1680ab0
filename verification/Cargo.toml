[package]
name = "cycle_spitter"
version = "0.1.0"
edition = "2021"
publish = false

[dependencies]
regex = "=1.13.1"
serde_json = "=1.0.154"
clap = { version = "=4.6.7", features = ["derive"] }
