[package]
name = "recipe_scraper"
version = "0.1.0"
edition = "2021"
publish = false

[dependencies]
regex = "1"
scraper = "0.16"
urlencoding = "2"
reqwest = { version = "0.11", default-features = false, features = ["rustls-tls"] }
warp = "0.3"
tokio = { version = "1", features = ["full"] }
serde = { version = "1", features = ["derive"] }
serde_json = "1"
thiserror = "1"
dotenvy = "0.15"
sea-orm = { version = "0.11", features = ["sqlx-postgres", "runtime-tokio-rustls", "macros", "postgres-array"] }
sqlx = { version = "0.6", features = ["runtime-tokio-rustls", "postgres"] }
