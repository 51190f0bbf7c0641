[package]
name = "hatchery"
version = "0.1.0"
edition = "2021"
publish = false

[dependencies]
anyhow = "*"
chrono = "*"
clap = { version = "*", features = ["derive", "env"] }
csv = "*"
dotenv = "*"
env_logger = "*"
log = "*"
md5 = "=0.8.1"
reqwest = { version = "=0.13.5", default-features = false, features = ["blocking", "query", "form", "json"] }
rusqlite = { version = "=0.40.2", features = ["bundled"] }
serde = { version = "*", features = ["derive"] }
serde_json = "=1.0.151"
