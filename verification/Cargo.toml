[package]
name = "chanmgr"
version = "0.1.0"
edition = "2021"
publish = false

[dependencies]
rand = "0.8"
rangemap = "1"
httparse = "1"
futures = "0.3"
tokio = { version = "1", default-features = false, features = ["rt", "rt-multi-thread", "time"] }
walkdir = "2"
