[package]
name = "nethound"
version = "0.1.0"
edition = "2021"
publish = false

[dependencies]
anyhow = "1"
argon2 = "0.5"
axum = "0.8"
chrono = "0.4"
clap = { version = "4", features = ["derive"] }
colored = "2"
dashmap = "6"
password-hash = "0.5"
pnet = "0.35"
r2d2_sqlite = { version = "0.25", features = ["bundled"] }
rand_core = { version = "0.6", features = ["getrandom"] }
reqwest = { version = "0.12", default-features = false }
rppal = "0.19"
serde = { version = "1", features = ["derive"] }
serde_json = "1"
sha2 = "0.10"
sqlx = { version = "0.8", default-features = false, features = ["sqlite", "runtime-tokio", "macros"] }
tokio = { version = "1", features = ["full"] }
toml = "0.8"
tower-http = { version = "0.6", features = ["cors", "fs"] }
uuid = { version = "1", features = ["v4"] }
warp = { version = "0.3", default-features = false }
