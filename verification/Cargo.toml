[package]
name = "multisig_wallet"
version = "0.1.0"
edition = "2021"
publish = false

[dependencies]
borsh = "0.10"
solana-program = "1.18"
spl-associated-token-account = { version = "2.3", default-features = false, features = ["no-entrypoint"] }
spl-token = { version = "4.0", default-features = false, features = ["no-entrypoint"] }
thiserror = "1.0"
