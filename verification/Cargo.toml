[package]
name = "zidian"
version = "0.1.0"
edition = "2021"
publish = false

[dependencies]
axum = "0.8"
axum-htmx = "*"
chrono = "0.4"
lazy_static = "1"
rand = "0.9"
serde = { version = "1", features = ["derive"] }
sqlx = { version = "0.8", default-features = false, features = ["sqlite", "runtime-tokio", "derive"] }
tera = "1"
tokio = { version = "1", features = ["full"] }
tower-http = { version = "0.6", features = ["fs"] }
tracing = "0.1"
tracing-subscriber = "0.3"
