[package]
name = "bootcore"
version = "0.1.0"
edition = "2021"
publish = false

[dependencies]
axum = "*"
deadpool = "*"
deadpool-diesel = { version = "*", features = ["postgres"] }
diesel = { version = "*", features = ["postgres"] }
diesel_migrations = "*"
tokio = { version = "*", features = ["macros", "rt-multi-thread", "net"] }
tracing = "*"
tracing-subscriber = { version = "*", features = ["env-filter"] }
