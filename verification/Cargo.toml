[package]
name = "pslxserver"
version = "0.1.0"
edition = "2021"
publish = false

[dependencies]
bytes = "1"
crossbeam-channel = "0.5"
dashmap = "6"
log = "0.4"
parking_lot = "0.12"
thiserror = "1"
tokio = { version = "1", features = ["full"] }
unicode-width = "0.2"
