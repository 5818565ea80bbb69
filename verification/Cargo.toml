[package]
name = "tscrapingbot_rs"
version = "0.1.0"
edition = "2021"
publish = false

[dependencies]
axum = "=0.8.9"
base64 = "=0.23.1"
dotenvy = "=0.15.7"
groqai = "=0.1.10"
html-escape = "=0.3.0"
kuchiki = "=0.8.1"
regex = "=1.13.1"
reqwest = { version = "=0.13.5", features = ["json"] }
serde = { version = "=1.0.229", features = ["derive"] }
serde_json = "=1.0.154"
sqlx = { version = "=0.9.0", default-features = false, features = ["postgres", "runtime-tokio"] }
takecell = "=0.1.1"
teloxide = { version = "=0.17.0", features = ["macros", "webhooks-axum"] }
thiserror = "=2.0.21"
tokio = { version = "=1.54.1", features = ["full"] }
tracing = "=0.1.44"
tracing-subscriber = { version = "=0.3.23", features = ["env-filter"] }
url = "=2.5.8"
