[package]
name = "pi_interactive"
version = "0.1.0"
edition = "2021"
publish = false

[dependencies]
dirs = "6"
jiff = "0.2"
regex = "1"
serde_json = "1"
tokio = { version = "1", features = ["process", "rt", "sync", "time"] }
