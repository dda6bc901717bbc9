[package]
name = "chain_react"
version = "0.1.0"
edition = "2021"
publish = false

[dependencies]
anyhow = "1"
bip39 = "2"
bitcoin = "0.32"
clap = { version = "4", features = ["derive"] }
ed25519-dalek = "2"
rand = "0.8"
reqwest = { version = "0.12", default-features = false, features = ["json", "rustls-tls"] }
serde = { version = "1", features = ["derive"] }
serde_json = "1"
sha3 = "0.10"
tokio = { version = "1", features = ["macros", "rt-multi-thread"] }
toml = "0.8"
