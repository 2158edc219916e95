[package]
name = "progressive_list"
version = "0.1.0"
edition = "2021"
publish = false

[dependencies]
tree_hash = "*"
ethereum_ssz = "*"
parity-scale-codec = { version = "3", features = ["derive"] }
serde = { version = "1", features = ["derive"] }
serde_derive = "1"
