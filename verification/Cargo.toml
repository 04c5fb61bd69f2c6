[package]
name = "port_relay"
version = "0.1.0"
edition = "2021"
publish = false

[dependencies]
anyhow = "1"
clap = { version = "4", features = ["derive"] }
flume = { version = "0.11", default-features = false }
futures = "0.3"
nix = { version = "0.29", features = ["socket", "net"] }
tokio = { version = "1", features = ["rt-multi-thread", "macros", "net", "io-util", "time"] }
tracing = "0.1"
tracing-subscriber = "0.3"
