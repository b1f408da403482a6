[package]
name = "nft-contract"
version = "0.1.0"
edition = "2021"
publish = false

[dependencies]
solana-program = "1.18"
thiserror = "1"

[dev-dependencies]
borsh = "1"
