[package]
name = "milestone_escrow"
version = "0.1.0"
edition = "2021"
publish = false

[dependencies]
rand = "*"
soroban-sdk = { version = "=28.0.0", features = ["testutils"] }
