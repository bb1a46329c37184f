[package]
name = "hftbacktest"
version = "0.1.0"
edition = "2021"
publish = false

[dependencies]
serde = { version = "1", features = ["derive"] }
toml = "*"
thiserror = "*"
zip = { version = "*", default-features = false, features = ["deflate"] }
uuid = { version = "1", features = ["v4"] }
