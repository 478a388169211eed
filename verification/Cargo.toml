[package]
name = "xepak"
version = "0.1.0"
edition = "2021"
publish = false

[dependencies]
actix-router = "*"
actix-web = "4"
getopt3 = "*"
minicbor = { version = "*", features = ["std"] }
rhai = "1"
serde = { version = "1", features = ["derive"] }
serde_json = "1"
serde_urlencoded = "*"
sqlx = { version = "*", features = ["any", "sqlite", "runtime-tokio"] }
sqlx-core = "*"
strum = { version = "*", features = ["derive"] }
thiserror = "*"
tokio = { version = "1", features = ["rt", "rt-multi-thread"] }
toml = "*"
tracing = "0.1"
tracing-subscriber = { version = "0.3", features = ["env-filter"] }
