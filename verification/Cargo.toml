[package]
name = "sonos_mux"
version = "0.1.0"
edition = "2021"
publish = false

[dependencies]
crossbeam-channel = "0.5"
tokio = { version = "1", features = ["full"] }
warp = "0.3"
clap = { version = "4", features = ["derive"] }
serde = { version = "1", features = ["derive"] }
serde_json = "1"
toml = "0.8"
thiserror = "1"
anyhow = "1"
log = "0.4"
env_logger = "0.11"
hostname = "0.4"
ctrlc = "3"
async-trait = "0.1"
