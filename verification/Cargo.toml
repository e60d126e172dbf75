[package]
name = "dep_doctor"
version = "0.6.0"
edition = "2021"
publish = false

[dependencies]
anyhow = "1"
clap = { version = "4", features = ["derive"] }
colored = "2"
dirs = "5"
ignore = "0.4"
indicatif = "0.17"
notify = "6"
notify-debouncer-mini = "0.4"
regex = "1"
semver = "1"
serde = { version = "1", features = ["derive"] }
serde_json = "1"
toml = "0.8"
ureq = "2"
zip = { version = "2", default-features = false, features = ["deflate"] }
