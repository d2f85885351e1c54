[package]
name = "the_block_node"
version = "0.1.0"
edition = "2021"
publish = false

[dependencies]
blake3 = { version = "=1.8.7", default-features = false, features = ["std", "pure"] }
ripemd = "=0.1.3"
sha3 = "=0.10.9"
crc32fast = "=1.5.4"
rand = "0.8"
serde = { version = "1", features = ["derive"] }
serde_json = "1"
bincode = "1"
sled = "0.34"
