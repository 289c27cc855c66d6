[package]
name = "korgi_beats"
version = "0.1.0"
edition = "2021"
publish = false

[dependencies]
argon2 = "=0.5.3"
axum = { version = "=0.8.9", features = ["multipart"] }
chrono = "=0.4.45"
dotenvy = "=0.15.7"
envy = "=0.4.2"
hex = "=0.4.3"
jsonwebtoken = "=9.3.1"
rand_core = { version = "=0.6.4", features = ["getrandom"] }
rustfft = "=6.4.1"
serde = { version = "=1.0.229", features = ["derive"] }
serde_json = "=1.0.154"
sha2 = "=0.10.9"
sqlx = { version = "=0.8.6", default-features = false, features = ["sqlite", "runtime-tokio", "macros", "migrate"] }
symphonia = { version = "=0.6.1", features = ["mp3"] }
tokio = { version = "=1.54.1", features = ["full"] }
tokio-util = "=0.7.20"
uuid = { version = "=1.29.1", features = ["v4"] }
validator = { version = "=0.21.0", features = ["derive"] }
