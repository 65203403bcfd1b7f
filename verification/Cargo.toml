[package]
name = "ubpa_hermes"
version = "0.1.0"
edition = "2021"
publish = false

[dependencies]
actix-web = "4"
actix-files = "0.6"
actix-multipart = "0.7"
askama = "0.14"
askama_web = { version = "0.14", features = ["actix-web-4"] }
chrono = "0.4"
infer = "0.19"
lettre = "0.11"
serde = { version = "1", features = ["derive"] }
serde_json = "1"
sqlx = { version = "0.8", default-features = false, features = ["runtime-tokio", "sqlite", "migrate"] }
tokio = { version = "1", features = ["rt-multi-thread", "macros", "time"] }
uuid = { version = "1", features = ["v4"] }
