[package]
name = "beacon"
version = "0.3.1"
edition = "2021"
publish = false

[dependencies]
anyhow = "1"
async-trait = "0.1"
chrono = "0.4"
clap = { version = "4", features = ["derive"] }
console = "0.15"
dialoguer = "0.11"
directories = "5"
futures = "0.3"
indicatif = "0.17"
rusqlite = { version = "0.32", features = ["bundled"] }
semver = "1"
serde = { version = "1", features = ["derive"] }
serde_json = "1"
sha2 = "0.10"
tempfile = "3"
tokio = { version = "1", features = ["full"] }
toml = "0.8"
toml_edit = "0.22"
