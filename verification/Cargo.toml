[package]
name = "markup"
version = "0.1.0"
edition = "2021"
publish = false

[dependencies]
axum = "=0.6.20"
sqlx = { version = "=0.7.4", default-features = false, features = ["runtime-tokio", "postgres", "migrate"] }
tokio = { version = "=1.53.2", features = ["macros", "rt-multi-thread", "net"] }
