[package]
name = "crates_check"
version = "0.1.0"
edition = "2021"
publish = false

[dependencies]
anyhow = "*"
cargo-lock = "*"
cargo_toml = "*"
flate2 = "*"
reqwest = { version = "*", default-features = false, features = ["blocking"] }
semver = "*"
serde_json = "*"
sha2 = "*"
tar = "*"
url = "*"
