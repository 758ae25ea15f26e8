[package]
name = "icu"
version = "0.1.0"
edition = "2021"
publish = false

[dependencies]
candid = "0.10"
ciborium = "0.2"
ic-stable-structures = "0.7"
serde = { version = "1", features = ["derive"] }
thiserror = "2"
