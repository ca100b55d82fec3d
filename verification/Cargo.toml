[package]
name = "blocks_contract"
version = "0.1.0"
edition = "2021"
publish = false

[dependencies]
borsh = "0.10"
solana-program = "1.16"
thiserror = "1"
