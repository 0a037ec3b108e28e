[package]
name = "tt_smi"
version = "0.1.0"
edition = "2021"
publish = false

[dependencies]
anyhow = "=1.0.104"
chrono = { version = "=0.4.45", features = ["serde"] }
clap = { version = "=4.6.7", features = ["derive"] }
crossterm = "=0.28.1"
env_logger = "=0.11.11"
log = "=0.4.35"
luwen-core = "=0.1.0"
luwen-if = "=0.4.4"
luwen-ref = "=0.3.1"
ratatui = "=0.29.0"
serde = { version = "=1.0.229", features = ["derive"] }
serde_json = "=1.0.154"
sysinfo = "=0.30.13"
thiserror = "=1.0.69"
tokio = { version = "=1.54.1", features = ["full"] }
ttkmd-if = "=0.1.0"
