[package]
name = "ai_news_aggregator"
version = "0.1.0"
edition = "2021"
publish = false

[dependencies]
chrono = "0.4"
rss = "2"
scraper = "*"
serde_json = "1"
uuid = { version = "1", features = ["v4"] }
serde = { version = "1", features = ["derive"] }
reqwest = { version = "0.12", features = ["json"] }
tokio = { version = "1", features = ["rt-multi-thread", "time", "macros"] }
rusqlite = { version = "*", features = ["bundled"] }
dotenvy = "0.15"
