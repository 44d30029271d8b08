[package]
name = "daily_briefing"
version = "0.1.0"
edition = "2021"
publish = false

[dependencies]
md5 = "*"
base64 = "0.22"
pulldown-cmark = { version = "*", default-features = false, features = ["html"] }
chrono = { version = "0.4", default-features = false, features = ["clock", "std"] }
cron = "*"
serde = { version = "1", features = ["derive"] }
serde_json = "1"
toml = "*"
reqwest = { version = "0.12", default-features = false, features = ["json"] }
axum = "0.7"
tokio = { version = "1", features = ["full"] }
futures = "0.3"
async-trait = "0.1"
thiserror = "*"
tracing = "0.1"
tracing-subscriber = { version = "0.3", features = ["env-filter"] }
clap = { version = "4", features = ["derive"] }
exitcode = "1"
