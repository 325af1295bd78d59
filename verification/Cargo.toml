[package]
name = "ss_relay"
version = "0.1.0"
edition = "2021"
publish = false

[dependencies]
awak = "=0.2.37"
slings = "=0.3.47"
futures-util = { version = "=0.3.34", features = ["io"] }
log = "=0.4.34"
env_logger = "=0.11.11"
serde_json = "=1.0.154"
trust-dns-resolver = "=0.23.2"
chacha20 = "0.9"
md-5 = "0.10"
rand = "0.8"
