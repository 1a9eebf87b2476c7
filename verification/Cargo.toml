[package]
name = "domain"
version = "0.1.0"
edition = "2021"
publish = false

[dependencies]
jiff = "*"
petgraph = "*"
uuid = { version = "1", features = ["v4"] }
