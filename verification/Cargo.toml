[package]
name = "mojang_api"
version = "0.1.0"
edition = "2021"
publish = false

[dependencies]
sha1 = "0.6"
serde = { version = "*", features = ["derive"] }
serde_json = "*"
reqwest = { version = "*", default-features = false }
uuid = { version = "*", features = ["serde"] }

[dev-dependencies]
num-bigint = "*"
