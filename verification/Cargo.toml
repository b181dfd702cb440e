[package]
name = "pyro"
version = "0.1.0"
edition = "2021"
publish = false

[dependencies]
anyhow = "1"
clap = { version = "4", features = ["derive"] }
dirs = "5"
image = { version = "0.25", default-features = false, features = ["png"] }
serde = { version = "1", features = ["derive"] }
time = { version = "0.3", features = ["local-offset", "formatting", "parsing"] }
toml = "0.8"
tracing = "0.1"
