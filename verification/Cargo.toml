[package]
name = "account_overlay"
version = "0.1.0"
edition = "2021"
publish = false

[dependencies]
lru-cache = "0.1"
rlp = "0.5"
blake2b_simd = "1"
serde = "1"
