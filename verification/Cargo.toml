[package]
name = "cronal"
version = "0.1.0"
edition = "2021"
publish = false

[dependencies]
async-trait = "0.1"
chrono = "0.4"
cron = "*"
thiserror = "1"
tokio = { version = "1", features = ["macros", "rt", "rt-multi-thread", "sync", "time"] }
