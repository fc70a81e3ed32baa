[package]
name = "kikisen_yomiyomi"
version = "0.1.0"
edition = "2021"
publish = false

[dependencies]
emoji = { version = "=0.2.1", features = ["ja"] }
unicode-segmentation = "=1.13.3"
regex = "=1.13.1"
poise = "=0.6.2"
songbird = { version = "=0.5.0", default-features = false, features = ["driver", "serenity", "gateway", "rustls", "builtin-queue", "tungstenite"] }
tokio = { version = "=1.54.1", features = ["full"] }
serde = { version = "=1.0.229", features = ["derive"] }
serde_json = "=1.0.154"
tracing = "=0.1.44"
tracing-subscriber = { version = "=0.3.23", features = ["env-filter"] }
tracing-appender = "=0.2.5"
dotenvy = "=0.15.7"
rustls = "=0.23.46"
reqwest = { version = "=0.12.28", default-features = false, features = ["rustls-tls"] }
tempfile = "=3.27.0"
async-trait = "=0.1.92"
