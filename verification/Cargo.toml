[package]
name = "axon_core"
version = "0.1.0"
edition = "2021"
publish = false

[dependencies]
tiny-keccak = { version = "*", features = ["keccak"] }
lru = "*"
arc-swap = "*"

[dev-dependencies]
rlp = "*"
