[package]
name = "timelock"
version = "0.1.0"
edition = "2021"
publish = false

[dependencies]
num-derive = "*"
num-traits = "*"
solana-program = "*"
spl-token = "*"
thiserror = "*"
