[package]
name = "luckysix"
version = "0.1.0"
edition = "2021"
publish = false

[dependencies]
chrono = { version = "0.4", default-features = false, features = ["clock", "std"] }
ethers = { version = "2", default-features = false, features = ["abigen"] }
lazy_static = "1"
serde = "1"
tokio = { version = "1", features = ["rt-multi-thread", "macros"] }
config = { version = "0.13", default-features = false, features = ["toml"] }
