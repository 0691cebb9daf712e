[package]
name = "notes_service"
version = "0.1.0"
edition = "2021"
publish = false

[dependencies]
rand = "=0.10.3"
axum = "=0.8.9"
axum-template = { version = "=3.0.0", features = ["handlebars"] }
dotenv = "=0.15.0"
handlebars = "=6.4.4"
redis = "=1.7.1"
serde = { version = "*", features = ["derive"] }
serde_json = "*"
serde_yaml = "=0.9.34"
sqlx = { version = "=0.9.0", default-features = false, features = ["runtime-tokio", "mysql", "macros"] }
thiserror = "*"
tokio = { version = "=1.53.2", features = ["rt-multi-thread", "macros", "net", "fs", "io-util", "sync"] }
