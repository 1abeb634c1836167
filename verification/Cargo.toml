[package]
name = "etcd_client"
version = "0.1.0"
edition = "2021"
publish = false

[dependencies]
log = "0.4"
prost = "0.13"
thiserror = "1"
tokio = { version = "1", features = ["rt", "rt-multi-thread"] }
tonic = "0.12"
