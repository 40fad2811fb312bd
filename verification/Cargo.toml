[package]
name = "zk_identity"
version = "0.1.0"
edition = "2021"
publish = false

[dependencies]
bellman = { version = "=0.14.0", features = ["multicore"] }
bls12_381 = "=0.8.0"
borsh = { version = "=1.8.1", features = ["derive"] }
rand = "=0.8.8"
sha2 = "=0.10.9"
