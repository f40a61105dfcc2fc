[package]
name = "hdn_data_server"
version = "0.1.0"
edition = "2021"
publish = false

[dependencies]
cobs = { version = "=0.3.0", default-features = false }
confy = "=2.0.0"
log = "=0.4.34"
postcard = { version = "=1.1.3", features = ["use-std"] }
pretty_env_logger = "=0.5.0"
serde = { version = "=1.0.229", features = ["derive"] }
sled = "=0.34.7"
tokio = { version = "=1.54.1", features = ["io-util", "macros", "net", "rt-multi-thread"] }
