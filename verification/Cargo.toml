[package]
name = "vecstore"
version = "0.1.0"
edition = "2021"
publish = false

[dependencies]
uuid = { version = "=1.29.0", features = ["v4"] }
serde_json = "=1.0.154"
async-trait = "=0.1.92"
reqwest = { version = "=0.12.28", default-features = false, features = ["json"] }
sqlx = { version = "=0.9.0", default-features = false, features = ["postgres", "runtime-tokio", "json"] }
pgvector = { version = "=0.4.2", features = ["sqlx"] }
