[package]
name = "memo"
version = "0.1.0"
edition = "2021"
publish = false

[dependencies]
globset = "0.4"
time = { version = "0.3", features = ["parsing", "formatting", "serde"] }
uuid = { version = "1", features = ["v4", "serde"] }
argon2 = "0.5"
rand = "0.9"
serde = { version = "1", features = ["derive"] }
serde_json = "1"
reqwest = { version = "0.12", default-features = false, features = ["json"] }
tokio = { version = "1", features = ["full"] }
toml = "0.8"
base64 = "0.22"
regex = "1"
walkdir = "2"
thiserror = "2"
clap = { version = "4", features = ["derive"] }
axum = "0.8"
sqlx = { version = "0.8", default-features = false, features = ["sqlite", "runtime-tokio", "macros"] }
async-trait = "0.1"
