[package]
name = "envtrace"
version = "0.1.0"
edition = "2021"
publish = false

[dependencies]
dirs = "=7.0.0"
clap = { version = "=4.6.7", features = ["derive"] }
serde = { version = "=1.0.229", features = ["derive"] }
serde_json = "=1.0.151"
owo-colors = "=4.4.0"
tabled = "=0.22.0"
plist = "*"
