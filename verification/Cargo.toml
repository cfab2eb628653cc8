[package]
name = "eurocore"
version = "0.1.0"
edition = "2021"
publish = false

[dependencies]
axum = "0.8"
bcrypt = "*"
chrono = { version = "0.4", features = ["serde"] }
htmlentity = "=1.3.2"
jsonwebtoken = "9"
quick-xml = { version = "=0.42.0", features = ["serialize"] }
regex = "1"
reqwest = { version = "0.12", default-features = false, features = ["rustls-tls"] }
serde = { version = "=1.0.229", features = ["derive"] }
serde_json = "1"
serde_urlencoded = "=0.7.1"
sqlx = { version = "0.8", default-features = false, features = ["postgres", "runtime-tokio", "chrono", "json", "migrate"] }
thiserror = "1"
tokio = { version = "1", features = ["full"] }
tower = { version = "0.5", features = ["util", "buffer", "limit"] }
tower-http = { version = "0.6", features = ["cors", "set-header", "trace"] }
tracing = "0.1"
tracing-subscriber = { version = "0.3", features = ["env-filter"] }
