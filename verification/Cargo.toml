[package]
name = "notes_api"
version = "0.1.0"
edition = "2021"
publish = false

[dependencies]
axum = "=0.6.20"
chrono = "=0.4.45"
dotenv = "=0.15.0"
serde = { version = "=1.0.229", features = ["derive"] }
serde_json = "=1.0.151"
sqlx = { version = "=0.7.4", default-features = false, features = ["runtime-tokio", "postgres", "chrono", "uuid"] }
tokio = { version = "=1.53.2", features = ["rt-multi-thread", "macros"] }
tower-http = { version = "=0.4.4", features = ["cors"] }
uuid = { version = "=1.27.0", features = ["v4", "serde"] }
