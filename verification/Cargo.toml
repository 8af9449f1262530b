[package]
name = "kisara"
version = "0.1.0"
edition = "2021"
publish = false

[dependencies]
anyhow = "1.0.104"
async-trait = "0.1.92"
axum = "0.8.9"
chrono = { version = "=0.4.45", features = ["serde"] }
futures = "0.3.34"
infer = "=0.22.0"
kuchikiki = "=0.8.2"
langtag = "1.1.0"
open = "5.4.5"
r2d2 = "0.8.10"
r2d2_sqlite = "*"
reqwest = { version = "0.12.28", features = ["json"] }
rusqlite = { version = "*", features = ["bundled", "chrono"] }
serde = { version = "1.0.229", features = ["derive"] }
serde_json = "1.0.154"
sha2 = "=0.10.9"
sys-locale = "0.3.2"
thiserror = "2.0.21"
tokio = { version = "=1.54.1", features = ["sync", "process", "rt-multi-thread", "net", "macros"] }
tower-http = { version = "0.6.11", features = ["cors", "fs"] }
tracing = "0.1.44"
tracing-appender = "0.2.5"
tracing-subscriber = { version = "0.3.23", features = ["chrono"] }
urlencoding = "=2.1.3"
