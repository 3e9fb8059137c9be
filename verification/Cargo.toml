[package]
name = "digest_sip_hash_core"
version = "0.1.0"
edition = "2021"
publish = false

[dependencies]
magnus = "*"
