[package]
name = "proxy_agent_core"
version = "0.1.0"
edition = "2021"
publish = false

[dependencies]
hex = "*"
http = "*"
hyper = "*"
serde = "*"
serde_derive = "*"
