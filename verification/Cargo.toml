[package]
name = "workty"
version = "0.1.0"
edition = "2021"
publish = false

[dependencies]
anyhow = "=1.0.104"
console = "=0.16.6"
dialoguer = { version = "=0.12.0", features = ["fuzzy-select"] }
dirs = "=7.0.0"
git2 = { version = "=0.21.0", default-features = false }
is-terminal = "=0.4.17"
owo-colors = "=4.4.0"
rayon = "=1.12.0"
serde = { version = "=1.0.229", features = ["derive"] }
serde_json = "=1.0.151"
