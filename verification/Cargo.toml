[package]
name = "netlink_wire"
version = "0.1.0"
edition = "2021"
publish = false

[dependencies]
anyhow = "1"
bincode = "1.3"
derive_builder = "*"
ipnet = "2"

[dev-dependencies]
libc = "0.2"
