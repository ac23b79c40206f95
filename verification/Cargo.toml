[package]
name = "tlv_account_resolution"
version = "0.1.0"
edition = "2021"
publish = false

[dependencies]
solana-pubkey = { version = "=4.4.0", features = ["curve25519", "sha2"] }
borsh = "=1.8.1"
proc-macro2 = "1"
quote = "1"
syn = { version = "2", features = ["full"] }
sha2 = "0.10"
