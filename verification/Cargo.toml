[package]
name = "chat_core"
version = "0.1.0"
edition = "2021"
publish = false

[dependencies]
actix = "*"
actix-cors = "*"
actix-web = "4"
actix-web-actors = "*"
bcrypt = "*"
chrono = "0.4"
dotenvy = "*"
futures = "0.3"
jsonwebtoken = "*"
serde = { version = "1", features = ["derive"] }
serde_json = "1"
sqlx = { version = "0.8", default-features = false, features = ["runtime-tokio", "mysql", "derive", "chrono"] }
tracing = "0.1"
tracing-actix-web = "*"
tracing-subscriber = { version = "0.3", features = ["env-filter"] }
