[package]
name = "p2p_transfer"
version = "0.1.0"
edition = "2021"
publish = false

[dependencies]
bs58 = "0.5"
bytes = "1"
clap = "4"
clipboard = "0.5"
futures = "0.3"
stunclient = "*"
tokio = { version = "1", features = ["full"] }
tokio-util = { version = "0.7", features = ["codec"] }
