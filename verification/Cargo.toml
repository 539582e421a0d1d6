[package]
name = "vrcwatchdog_core"
version = "0.1.0"
edition = "2021"
publish = false

[dependencies]
blake3 = "=1.8.7"
chrono = "=0.4.45"
chrono-tz = "=0.10.4"
serde = { version = "=1.0.229", features = ["derive"] }
serde_json = "=1.0.154"
sqlx = { version = "=0.8.6", default-features = false, features = ["runtime-tokio", "sqlite", "chrono", "migrate", "macros"] }
tokio = { version = "=1.54.1", features = ["full"] }
notify = "=8.2.1"
notify-debouncer-mini = "=0.6.0"
sysinfo = "=0.33.1"
image = { version = "=0.25.10", default-features = false, features = ["png", "jpeg", "webp"] }
tempfile = "=3.27.0"
iana-time-zone = "=0.1.65"
tracing = "=0.1.44"
tracing-subscriber = { version = "=0.3.23", features = ["env-filter"] }
thiserror = "=2.0.21"
anyhow = "=1.0.104"
async-trait = "=0.1.92"
regex = "=1.13.1"
regex-syntax = "=0.8.11"
