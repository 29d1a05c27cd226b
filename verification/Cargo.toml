[package]
name = "user_data_importer"
version = "0.1.0"
edition = "2021"
publish = false

[dependencies]
zip = { version = "*", default-features = false, features = ["deflate"] }
semver = "*"
serde = { version = "*", features = ["derive"] }
