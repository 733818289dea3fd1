[package]
name = "mixtape_sync"
version = "0.1.0"
edition = "2021"
publish = false

[dependencies]
anyhow = "=1.0.104"
rspotify = { version = "=0.13.3", features = ["cli"] }
rss = { version = "=1.9.0", features = ["from_url"] }
tokio = { version = "=1.54.1", features = ["full"] }

[dev-dependencies]
regex = "1"
