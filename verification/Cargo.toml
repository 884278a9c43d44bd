[package]
name = "averter"
version = "0.1.0"
edition = "2021"
publish = false

[dependencies]
actix-cors = "=0.7.2"
actix-web = { version = "=4.18.1", default-features = false, features = ["macros"] }
anyhow = "=1.0.104"
chrono = "=0.4.45"
futures-util = "=0.3.34"
http = "=0.2.12"
once_cell = "=1.21.4"
sentry = { version = "=0.49.3", default-features = false, features = ["anyhow", "backtrace", "contexts", "panic"] }
sentry-actix = "=0.49.3"
serde = { version = "=1.0.229", features = ["derive"] }
serde_json = "=1.0.154"
serde_yaml = "*"
surf = { version = "=2.3.2", default-features = false, features = ["h1-client-rustls"] }
tokio = { version = "=1.54.1", features = ["macros", "rt-multi-thread", "sync"] }
url = "=2.5.8"
