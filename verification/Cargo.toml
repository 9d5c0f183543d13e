[package]
name = "kinic_cli"
version = "0.1.0"
edition = "2021"
publish = false

[dependencies]
ring = "=0.17.14"
candid = "=0.10.37"
ic-ed25519 = "=0.6.0"
ic-agent = "=0.49.2"
axum = "=0.8.9"
tokio = { version = "=1.53.2", features = ["rt-multi-thread", "macros", "net", "sync", "time"] }
serde = { version = "=1.0.229", features = ["derive"] }
serde_json = "=1.0.151"
anyhow = "=1.0.104"
clap = { version = "=4.6.7", features = ["derive"] }
keyring = "=3.6.3"
pem = "=3.0.6"
icrc-ledger-types = "=0.2.0"
pdf-extract = "=0.12.1"
