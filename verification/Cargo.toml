[package]
name = "solana_toolbox_idl"
version = "0.1.0"
edition = "2021"
publish = false

[dependencies]
solana-pubkey = { version = "*", features = ["curve25519", "sha2", "std"] }
bs58 = "*"
base64 = "*"
serde_json = "*"
clap = { version = "*", features = ["derive"] }
