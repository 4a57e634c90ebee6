[package]
name = "dropset"
version = "0.1.0"
edition = "2021"
publish = false

[dependencies]
pinocchio = "=0.9.3"
pinocchio-pubkey = "=0.3.0"
pinocchio-token = "=0.4.0"
solana-address = "=1.1.0"
solana-program-error = "=3.0.1"
itertools = "=0.14.0"
proc-macro2 = "1"
quote = "1"
syn = "2"
