[package]
name = "mini_search_engine"
version = "0.1.0"
edition = "2021"
publish = false

[dependencies]
anyhow = "=1.0.104"
axum = { version = "=0.7.9", default-features = false, features = ["http1", "query", "tokio"] }
bincode = "=1.3.3"
bytesize = "=1.3.3"
humansize = "=2.1.3"
lazy_static = "=1.5.1"
mimalloc = "=0.1.52"
scraper = { version = "=0.20.0", features = ["deterministic"] }
serde = { version = "=1.0.229", features = ["derive"] }
serde_yaml = "=0.9.34"
sled = "=0.34.7"
spider = { version = "=2.53.9", default-features = false, features = ["sync"] }
tantivy = "=0.22.1"
tera = { version = "=1.20.1", default-features = false }
tokio = { version = "=1.54.1", features = ["full"] }
tower-http = { version = "=0.6.11", features = ["fs"] }
