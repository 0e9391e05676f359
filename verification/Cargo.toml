[package]
name = "netbase"
version = "0.1.0"
edition = "2021"
publish = false

[dependencies]
anyhow = "1"
async-trait = "0.1"
chrono = "0.4"
dashmap = "5"
futures-util = "0.3"
lazy_static = "1"
net2 = "0.2"
num_cpus = "1"
prost = "0.12"
rand = "0.8"
redis = "0.23"
sysinfo = "0.30"
thiserror = "1"
tokio = { version = "1", features = ["full"] }
tokio-tungstenite = "0.21"
tracing = "0.1"
