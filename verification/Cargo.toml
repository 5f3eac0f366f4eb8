[package]
name = "compose-scaler"
version = "0.1.0"
edition = "2021"
publish = false

[dependencies]
axum = "0.7"
bollard = "0.16"
clap = { version = "4", features = ["derive"] }
hashbrown = "0.14"
lazy_static = "1"
serde = { version = "1", features = ["derive"] }
serde_yaml = "0.9"
ssh2 = "0.9"
tera = { version = "1", default-features = false }
thiserror = "1"
tokio = { version = "1", features = ["full"] }
tracing = "0.1"
tracing-subscriber = { version = "0.3", features = ["env-filter"] }

[dev-dependencies]
serde_json = "1"
