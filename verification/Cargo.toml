[package]
name = "miniapp_factory"
version = "0.1.0"
edition = "2021"
publish = false

[dependencies]
actix-web = "=4.15.0"
env_logger = "=0.11.11"
ethsign = "=0.9.0"
futures-util = "=0.3.34"
hex = "=0.4.3"
log = "=0.4.34"
rand = "=0.10.3"
serde = { version = "=1.0.229", features = ["derive"] }
serde_json = "=1.0.151"
tiny-keccak = { version = "=2.0.2", features = ["keccak"] }
tokio = { version = "=1.53.2", features = ["full"] }
xnode-deployer = { version = "=1.0.9", features = ["hyperstack"] }
xnode-manager-sdk = "=1.0.4"
