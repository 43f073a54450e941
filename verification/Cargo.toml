[package]
name = "xaam"
version = "0.1.0"
edition = "2021"
publish = false

[dependencies]
solana-program = "1.18"
spl-token = "4"
thiserror = "1"

[dev-dependencies]
borsh = "0.10"
