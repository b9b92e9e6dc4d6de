[package]
name = "rusql_alchemy"
version = "0.1.0"
edition = "2021"
publish = false

[dependencies]
sqlx = { version = "0.8", default-features = false, features = ["runtime-tokio", "sqlite", "any"] }
tokio = { version = "1", default-features = false, features = ["rt-multi-thread", "macros"] }
