[package]
name = "saito"
version = "0.1.0"
edition = "2021"
publish = false

[dependencies]
ahash = "0.7"
bincode = "1.3"
blake3 = { version = "1", features = ["pure"] }
rayon = "1.5"
serde = { version = "1", features = ["derive"] }
serde_with = "1"
