[package]
name = "trusted_proxies"
version = "0.1.0"
edition = "2021"
publish = false

[dependencies]
ipnet = "2"
http = "1"
