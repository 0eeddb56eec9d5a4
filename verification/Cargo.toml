[package]
name = "tokio_fs_stream"
version = "0.1.0"
edition = "2021"
publish = false

[dependencies]
async-bincode = "0.4"
bincode = "1"
futures = "0.1"
log = "0.4"
notify = "4"
serde = "1"
tokio-fs = "0.1"
