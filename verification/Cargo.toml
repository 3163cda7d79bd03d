[package]
name = "bim_business"
version = "0.1.0"
edition = "2021"
publish = false

[dependencies]
anyhow = "1"
argh = "*"
axum = "*"
axum-server = "*"
base64 = "0.22.1"
chrono = "*"
deadpool-postgres = "*"
google-cloud-auth = "*"
http = "*"
rand = "*"
reqwest = { version = "*", default-features = false }
serde = { version = "1", features = ["derive"] }
serde_json = "1"
time = { version = "0.3", features = ["serde", "formatting", "parsing"] }
tokio = { version = "1", features = ["full"] }
tokio-postgres = { version = "0.7", features = ["with-time-0_3"] }
tower-http = { version = "0.6", features = ["trace"] }
tracing = "*"
tracing-subscriber = { version = "*", features = ["env-filter"] }
