[package]
name = "commitment_types"
version = "0.1.0"
edition = "2021"
publish = false

[dependencies]
anyhow = { version = "1", default-features = false }
blake2 = { version = "0.10", default-features = false }
blake3 = { version = "1", default-features = false }
ibc-proto = { version = "*", default-features = false }
ics23 = { version = "0.12" }
ripemd = { version = "0.1", default-features = false }
sha2 = { version = "0.10", default-features = false }
sha3 = { version = "0.10", default-features = false }
