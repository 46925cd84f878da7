[package]
name = "pdforum"
version = "0.1.0"
edition = "2021"
publish = false

[dependencies]
anyhow = "1"
axum = { version = "0.7", default-features = false, features = ["http1", "tokio", "query"] }
chrono = { version = "0.4", default-features = false, features = ["std", "clock"] }
comemo = "0.4"
dotenvy = "0.15"
ecow = "0.2"
env_logger = { version = "0.11", default-features = false }
log = "0.4"
parking_lot = "0.12"
rand = "0.8"
serde = { version = "1", features = ["derive"] }
sha2 = "0.10"
time = "0.3"
tokio = { version = "1", features = ["macros", "rt-multi-thread", "net"] }
tower-sessions = "0.13"
typst = "0.12"
typst-kit = { version = "0.12", default-features = false, features = ["fonts"] }
typst-pdf = "0.12"
