[package]
name = "git-kit"
version = "0.1.0"
edition = "2021"
publish = false

[dependencies]
anyhow = "1"
chrono = "0.4"
clap = { version = "3.2", features = ["derive"] }
colored = "2"
directories = "4"
inquire = "0.5"
log = "0.4"
rusqlite = { version = "0.28", features = ["bundled"] }
rusqlite_migration = "1.0"
serde = { version = "1", features = ["derive"] }
serde_yaml = "0.9"
thiserror = "1"
