[package]
name = "trainer_log"
version = "0.1.0"
edition = "2021"
publish = false

[dependencies]
chrono = { version = "*", features = ["serde"] }
serde = { version = "*", features = ["derive"] }
serde_json = "*"
thiserror = "*"
url = "*"
dotenvy = "*"
sqlx = { version = "*", default-features = false, features = ["runtime-tokio", "sqlite", "chrono"] }
tokio = { version = "*", features = ["rt-multi-thread", "macros"] }
reqwest = { version = "*", default-features = false, features = ["json", "rustls-tls"] }
