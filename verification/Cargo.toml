[package]
name = "exonum_auction"
version = "0.1.0"
edition = "2021"
publish = false

[dependencies]
exonum = "0.9"
exonum-configuration = "0.9"
failure = "0.1"
pub-sub = "*"
serde = { version = "1", features = ["derive"] }
serde_derive = "1"
