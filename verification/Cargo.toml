[package]
name = "akio"
version = "0.1.0"
edition = "2021"
publish = false

[dependencies]
core_affinity = "0.8"
futures = "0.1"
num_cpus = "1"
parking_lot = "0.12"
rand = "0.8"
tokio-core = "0.1"
uuid = { version = "1", features = ["v4"] }
