[package]
name = "msip"
version = "0.1.0"
edition = "2021"
publish = false

[dependencies]
bitflags = "2"
tokio = { version = "1", features = ["sync", "net", "io-util", "rt-multi-thread", "macros"] }
