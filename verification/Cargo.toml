[package]
name = "cronos_plugin"
version = "0.1.0"
edition = "2021"
publish = false

[dependencies]
bincode = "1.3"
solana-program = "1.18"
log = "0.4"
thiserror = "1.0"
