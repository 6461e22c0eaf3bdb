[package]
name = "portmap"
version = "0.8.1"
edition = "2021"
publish = false

[dependencies]
axum = "*"
clap = { version = "4", features = ["derive"] }
serde = { version = "1", features = ["derive"] }
sqlx = { version = "*", default-features = false, features = ["sqlite", "runtime-tokio"] }
tokio = { version = "1", features = ["macros", "rt-multi-thread", "net", "sync"] }
tracing = "0.1"
tracing-subscriber = { version = "0.3", features = ["env-filter"] }
