[package]
name = "ward_core"
version = "0.1.0"
edition = "2021"
publish = false

[dependencies]
anyhow = "=1.0.104"
clap = { version = "=4.6.7", features = ["derive"] }
ctrlc = "=3.5.2"
dirs = "=6.0.0"
serde = { version = "=1.0.229", features = ["derive"] }
sha2 = "0.10"
sysinfo = "=0.37.2"
thiserror = "=2.0.21"
toml = "=0.8.23"
tracing = "=0.1.44"
tracing-subscriber = { version = "=0.3.23", features = ["env-filter"] }
