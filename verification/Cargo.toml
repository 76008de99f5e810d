[package]
name = "evm_codec"
version = "0.1.0"
edition = "2021"
publish = false

[dependencies]
alloy-dyn-abi = { version = "=1.7.3", features = ["eip712"] }
alloy-json-abi = "=1.7.3"
alloy-primitives = "=1.7.3"
anyhow = "=1.0.104"
arrow = { version = "=60.0.0", default-features = false, features = ["ipc"] }
arrow-ipc = { version = "=60.0.0", default-features = false }
clap = { version = "=4.6.7", features = ["derive"] }
duration-str = "=0.21.0"
futures = "=0.3.34"
mimalloc = "0.1"
mini-moka = "=0.10.3"
serde = { version = "=1.0.229", features = ["derive"] }
serde-inline-default = "=1.0.3"
serde_json = "=1.0.154"
serde_qs = "=1.1.3"
serde_yaml = "=0.9.34"
tokio = { version = "=1.54.1", features = ["rt-multi-thread", "time"] }
toml = "=0.9.12"
url = "=2.5.8"
