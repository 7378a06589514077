[package]
name = "light_compressed_claim"
version = "0.1.0"
edition = "2021"
publish = false

[dependencies]
solana-program = "=2.3.0"
thiserror = "=2.0.21"

[dev-dependencies]
borsh = "=0.10.4"
light-compressed-account = "=0.11.0"
light-token-types = "=0.23.0"
