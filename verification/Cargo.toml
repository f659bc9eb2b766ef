[package]
name = "netty"
version = "0.1.0"
edition = "2021"
publish = false

[dependencies]
tokio = { version = "1", features = ["full"] }
tokio-tun = "*"
rtnetlink = "*"
futures = "0.3"
log = "0.4"
