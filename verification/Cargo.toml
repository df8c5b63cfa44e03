[package]
name = "polygone"
version = "0.1.0"
edition = "2021"
publish = false

[dependencies]
sha2 = "0.10"
aes-gcm = "0.10"
sharks = "0.5"
rand = "0.8"
pqcrypto-mldsa = "0.1"
pqcrypto-traits = "0.3"
serde = { version = "1", features = ["derive"] }
serde_json = "1"
bincode = "1"
toml = "0.8"
chrono = "0.4"
clap = { version = "4", features = ["derive"] }
tokio = { version = "1", features = ["full"] }
log = "0.4"
env_logger = "0.11"
anyhow = "1"
ctrlc = "3"
dirs = "5"
sysinfo = "0.32"
libc = "0.2"
zeroize = "1"
crossterm = "0.28"
ratatui = "0.29"
futures = "0.3"
hex = "0.4"
