[package]
name = "funding_oracle"
version = "0.1.0"
edition = "2021"
publish = false

[dependencies]
solana-program = "*"
solana-sdk = "*"
clap = { version = "*", features = ["derive"] }
dotenv = "*"
