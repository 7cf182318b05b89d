[package]
name = "version_checker"
version = "0.1.2"
edition = "2021"
publish = false

[dependencies]
semver = "=0.11.0"
regex = "=1.13.1"
serde = { version = "=1.0.229", features = ["derive"] }
toml = "=1.1.8"
cargo_toml = "=0.22.3"
crates_io_api = "=0.12.0"
