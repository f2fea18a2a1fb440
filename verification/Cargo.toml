[package]
name = "demeter"
version = "0.1.0"
edition = "2021"
publish = false

[dependencies]
rocket = "0.5"
serde = { version = "1", features = ["derive"] }
serde_json = "1"
sha2 = "0.10"
sqlx = { version = "0.7", default-features = false, features = ["runtime-tokio", "sqlite"] }
strum_macros = "*"
urlencoding = "2"
