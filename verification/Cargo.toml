[package]
name = "blogger"
version = "0.1.0"
edition = "2021"
publish = false

[dependencies]
url = "2"
serde = { version = "1", features = ["derive"] }
serde_json = "1"
rocket = "0.5"
rocket_db_pools = { version = "0.1", features = ["sqlx_mysql"] }
