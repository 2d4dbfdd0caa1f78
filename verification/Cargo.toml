[package]
name = "trust_dns_proto"
version = "0.1.0"
edition = "2021"
publish = false

[dependencies]
futures = "0.3"
tokio = { version = "1", default-features = false, features = ["sync"] }
libc = "0.2"
log = "0.4"
winapi = { version = "0.3", features = ["ws2def", "ws2ipdef", "winsock2"] }
