[package]
name = "stlouisfed-fred-web-proxy"
version = "0.1.0"
edition = "2021"
publish = false

[dependencies]
axum = "0.6"
chrono = "0.4"
clap = { version = "4", features = ["derive", "env"] }
hyper = "0.14"
reqwest = { version = "0.11", features = ["json"] }
serde = { version = "1", features = ["derive"] }
sqlx = { version = "0.7", features = ["runtime-tokio", "sqlite", "chrono"] }
tokio = { version = "1", features = ["full"] }
tower-http = { version = "0.4", features = ["cors", "compression-gzip"] }

[dev-dependencies]
serde_json = "1"
