[package]
name = "an"
version = "0.1.0"
edition = "2021"
publish = false

[dependencies]
anyhow = "=1.0.104"
clap = { version = "=4.6.7", features = ["derive"] }
colored = "=3.1.1"
dirs = "=7.0.0"
reqwest = { version = "=0.13.5", default-features = false, features = ["blocking", "json"] }
semver = "=1.0.28"
serde = { version = "=1.0.229", features = ["derive"] }
toml = "=1.1.7"
which = "=8.0.6"
