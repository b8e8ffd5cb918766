[package]
name = "fire_alarm_website"
version = "0.1.0"
edition = "2021"
publish = false

[dependencies]
axum = "0.8"
clap = { version = "4", features = ["derive"] }
humantime = "2"
lettre = { version = "0.11", default-features = false, features = ["builder", "hostname", "pool", "serde", "smtp-transport", "tokio1-rustls-tls"] }
rand = "0.9"
sea-orm = { version = "1", default-features = false, features = ["macros", "runtime-tokio-rustls", "sqlx-sqlite"] }
serde = { version = "1", features = ["derive"] }
thiserror = "2"
tokio = { version = "1", features = ["macros", "net", "rt-multi-thread", "signal", "sync", "time"] }
