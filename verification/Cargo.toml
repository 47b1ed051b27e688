[package]
name = "isshin"
version = "0.1.0"
edition = "2021"
publish = false

[dependencies]
zxcvbn = "=2.2.2"
password-auth = "=1.0.0"
anyhow = "=1.0.104"
axum = "=0.8.9"
axum-login = "=0.18.0"
clap = { version = "=4.6.7", features = ["derive"] }
directories = "=6.0.0"
dotenv = "=0.15.0"
reqwest = { version = "=0.13.5", default-features = false, features = ["json", "cookies", "form"] }
serde = { version = "=1.0.229", features = ["derive"] }
serde_json = "=1.0.154"
sqlx = { version = "=0.9.0", default-features = false, features = ["runtime-tokio", "sqlite"] }
tokio = { version = "=1.54.1", features = ["full"] }
tower = "=0.5.3"
tower-sessions = "=0.14.0"
