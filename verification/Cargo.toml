[package]
name = "duga"
version = "0.1.0"
edition = "2021"
publish = false

[dependencies]
pulldown-cmark = { version = "=0.13.6", default-features = false }
which = "=8.0.6"
glob = "=0.3.4"
uuid = { version = "=1.29.0", features = ["v4"] }
serde = { version = "=1.0.229", features = ["derive"] }
serde_json = "=1.0.154"
serde_yaml = "=0.9.34"
chrono = { version = "=0.4.45", default-features = false, features = ["std", "clock"] }
cron = "=0.17.0"
regex = "=1.13.1"
grep-regex = "=0.1.14"
dashmap = "=6.2.1"
jsonschema = { version = "=0.60.2", default-features = false }
tokio = { version = "=1.54.1", features = ["full"] }
teloxide = { version = "=0.17.0", default-features = false, features = ["rustls", "macros"] }
takecell = "=0.1.1"
clap = { version = "=4.6.7", features = ["derive"] }
anyhow = "=1.0.104"
