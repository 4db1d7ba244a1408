[package]
name = "qa_store"
version = "0.1.0"
edition = "2021"
publish = false

[dependencies]
sqlx = { version = "0.8", default-features = false, features = ["postgres", "runtime-tokio", "uuid", "time"] }
async-trait = "0.1"
error-stack = "0.3"
dotenvy = "0.15"
pretty_env_logger = "0.4"
rocket = { version = "0.5", features = ["json"] }
serde = { version = "1", features = ["derive"] }
