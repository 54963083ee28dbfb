[package]
name = "exam_archive"
version = "0.1.0"
edition = "2021"
publish = false

[dependencies]
regex = "1"
sanitize-filename = "0.5"
urlencoding = "2"
sha2 = "0.10"
anyhow = "1"
axum = "0.7"
tokio = { version = "1", features = ["full"] }
r2d2 = "0.8"
r2d2_sqlite = "0.24"
rusqlite = { version = "0.31", features = ["bundled", "functions"] }
serde = { version = "1", features = ["derive"] }
serde_json = "1"
tower-http = { version = "0.5", features = ["cors", "compression-gzip", "fs", "set-header"] }
tracing = "0.1"
tracing-subscriber = { version = "0.3", features = ["env-filter"] }
zip = { version = "0.6", default-features = false }
reqwest = { version = "0.12", default-features = false, features = ["gzip"] }
scraper = "0.19"
clap = { version = "4", features = ["derive"] }
futures = "0.3"
indicatif = "0.17"
walkdir = "2"
rayon = "1"
